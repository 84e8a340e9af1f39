# stt

Speech to text on the command line, from an audio file, a recording or the live microphone. The
rules of the program stand in a library that Verus proves against its contracts; the program around
it does the input and output.

## The library, `src/`

| module | what it holds |
| --- | --- |
| `streaming` | live transcription: a session that is told of chunks, inferences and words, and answers with transcript pieces, with or without the times of the words, and reports |
| `streaming_laws` | what holds of a whole live transcription: every word is shown once and in order, alerts and resumptions take turns, one end of turn between words, no word within an alert, exact counters, each received chunk counted off |
| `streaming_flow` | how a live transcription goes on: every chunk is processed once and in order, only the end of the audio stops it, debug mode only adds reports |
| `batch` | transcription of a recording, with or without the times of the words |
| `batch_laws` | what holds of a whole transcript: every word is shown once and in order, with the time of the next boundary as its end, and how the whole reads |
| `capture` | chunks out of the buffer of captured samples, reports on its growth, load shedding |
| `capture_laws` | what holds of a whole capture: no sample is lost, debug mode only adds reports, the channel to the model never fills up however the two threads interleave |
| `writer` | when the transcript file is due to be synced, also where a sync fails |
| `audio` | silence around a recording, the first channel of interleaved samples, chunks of a recording |
| `config` | the shape of the model that a configuration asks for |
| `device` | where the model runs, the list of audio devices |
| `mode` | what the arguments ask for, the check of the gain |
| `scores`, `single`, `clock`, `text` | voice activity scores, the order of single-precision numbers by their bit patterns, spans of time, texts |

The library computes with no fractions. Scores, gains and times of words are carried as bit patterns
and compared by them; what has to be calculated or written out as a fraction is left to the program.

Two functions are trusted without proof, both in `device`: they ask candle whether it was built for
CUDA or Metal, and nothing is claimed of the answer.

## The program, `app/`

Arguments, download and loading of the model, inference, the tokenizer, the microphone, printing and
files. It tests the conditions of the library's functions before it calls them.
