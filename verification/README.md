# TextSpill

System-wide voice-to-text for Linux: press a hotkey, talk, press it again, and the
transcription lands at the cursor. TextSpill never presses Enter.

The library under `src/` holds everything that TextSpill decides, verified with Verus:
what is recorded and when, what is asked of the transcription services, what is typed,
which files may go, and what the user is told. The program under `app/` carries these
decisions out: it runs the subprocesses, reads and writes files, and talks to the local
ASR daemon and to Deepgram.

## How the parts fit

Whatever alternates decisions with work on the system is a machine. A machine takes its
stage and the answer to its last question, and gives its next stage and its next action
(`host.rs` lists the actions and the answers). What it may do is a relation over stages,
answers and actions; laws about whole runs are public proof functions over such relations.

| Module | What it decides |
|---|---|
| `command` | command dispatch; starting, stopping and cancelling a recording |
| `live` | live typing from audio segments, and finishing it |
| `stream` | streaming to Deepgram, delivering results, draining a stream |
| `delivery` | how one more piece of text is typed: copied, announced, pasted, counted |
| `wav` | where the PCM lies in a growing WAV file, and where a segment ends |
| `state` | the state derived from PID files and `/proc`; waiting for the lock |
| `audio` | stopping the recorder without ever signalling another process |
| `clipboard`, `input` | reading the clipboard back; which keys paste, and with which tool |
| `ipc`, `deepgram`, `transcription` | requests to the services, and their replies |
| `config`, `paths` | settings and credentials; every file TextSpill touches |
| `notify`, `failure` | what the user is told |
| `text`, `number`, `json`, `web` | texts, numerals, JSON fields, URLs and headers |

## What holds

- Nothing that is copied to be pasted holds a line break.
- Typed text only grows at its end, and no audio is typed twice.
- A keystroke is only sent after its text is on the clipboard. Live typing and streams
  also publish the intent first, and a paste of theirs that was not confirmed is never
  repeated.
- Live typing, its finish and streams take up the recording in order, without a gap, and
  no byte twice.
- Workers deliver only under the command lock, and only while their session is active.
- A recording is removed only once its text is on the clipboard, by cancelling, or by the
  next start. One with nothing to spill in it stays until then.
- A signal only ever goes to a process that was just seen to be the recorder.
