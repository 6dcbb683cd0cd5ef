# volume_proxy

A silent audio session that stands for whichever application is in the foreground. A volume
controller is pointed at this session once. When it adjusts the session's level, the change is
applied to the application in the foreground, and the session's level follows the level of that
application.

## Layout

- `src/` is the verified library. It decides which call to make next and makes none itself,
  apart from reading constants and comparing identifiers of the `windows` crate.
  - `volume`, `rounding`: levels as binary32 encodings; sums and differences correctly rounded.
  - `context`: who caused a change.
  - `exchange`: calls, replies, and courses of action that proceed from reply to reply.
  - `foreground`, `scan`: the process in the foreground and its audio sessions.
  - `handlers`: changes of the proxy's level, of an application's level, and of the window.
  - `run`, `disconnect`: the life of the proxy's session, and its loss.
  - `watch`: the sessions that are watched for changes.
  - `hook`, `startup`, `log`: the window hook, the command line, the log.
  - `world`, `sync`, `lifecycle`: a model of the audio system, and what holds of whole runs.
- `app/` is the program for Windows: it makes the calls and hands the replies back.
- `tests/` runs the library against a simulated audio system.
