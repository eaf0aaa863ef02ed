# canora

A small Spotify client, as a verified library and a thin program around it.

* `src/` is the library, written in Verus: the play queue and the player's state machine, the
  library view and its edits, what each screen shows, how the Web API's replies, the session's
  playlist listings and the local cache's rows read, the request bodies, the login's decisions,
  the session watchdog, the image cache's file names and eviction order, the desktop player's
  metadata, and the themes. Each public function states what it returns in its contract, and the
  laws that span several functions (going back and forth in the history, turning shuffle on and
  off, reading back what the cache wrote, a refused edit restoring the view) are proof functions.
* `tests/` runs the library on concrete values.
* `app/` is the program: the command line, the environment, the settings file, and the shapes
  serde reads replies into, each converted to and from the library's own.

The streaming session, the audio output, the HTTP client, the SQLite cache and the window
toolkit are separate crates; the library takes what they report as plain values and returns
what to do next.
