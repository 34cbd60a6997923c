# hyperbox

The verified core of a plugin that sends a text file from a phone to a band or a watch.

The user picks a file and sends it. The plugin opens the app on the device, shakes hands with it,
announces the file, and then sends the chunks that the app asks for, until the app has them all or
either side gives up.

The library in `src/` holds the whole of that logic as a state machine, proved with
[Verus](https://github.com/verus-lang/verus):

| module | what it holds |
| --- | --- |
| `ui` | the handlers of clicks, timers, messages and answers |
| `state` | what the plugin remembers, and what a handler wants done |
| `transfer` | a text that is cut into chunks |
| `message`, `json` | the messages, and the JSON values that carry them |
| `screen`, `element` | what is shown |
| `units`, `rounding` | numbers and sizes as they are shown |
| `text` | UTF-8 |
| `laws`, `session`, `history` | what holds of the plugin as a whole |

A handler changes a `UiState` and returns a `Step`: effects that the host carries out in order, and
then a question. The answer goes to the function that the documentation of the question names. Each
handler comes with a specification `after_..`, which gives the new state, the effects and the
question for every state and input.

`app/` connects the library to a host: it keeps the state behind a lock, performs the effects and
answers the questions.
