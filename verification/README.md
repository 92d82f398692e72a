# gemini-live-transcribe

Live transcription in the terminal with Gemini Live.

`src/` is the verified library: everything the application decides or computes, with its
contracts proved by Verus. `app/` is the program around it: the command line, the network, the
audio devices, the terminal and the files. `tests/` runs the library on concrete values.

| module | what it holds |
| --- | --- |
| `text`, `json`, `seconds` | text, JSON values, and seconds in single precision |
| `transcriber` | the messages of the Live protocol, sent and received |
| `connection`, `draft`, `finalizer` | the workers of a source as steps from state and event to state and effects |
| `transcript`, `export` | the transcript of a session and where it goes |
| `session_log`, `retention` | the records of a session log, and which logs are kept |
| `capture`, `tap` | sources, batches of audio, recordings, and the decoding of system audio |
| `ui`, `wrap`, `normalize` | what is on screen |
| `paths`, `launch`, `updater` | directories, settings, and the self-update |

Public proof functions named `law_...` state what holds across several functions.

Times are nanoseconds on a clock that the caller chooses, and audio samples are of a type that the
caller chooses: floating point stays in `app/`. Where seconds are added up and shown in single
precision, `seconds` holds them as integers and rounds as single precision does.
