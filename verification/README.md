# `pdftui`

A PDF viewer for the terminal with SyncTeX support: an editor can jump to the
place of a source line in the PDF (forward search), and a Ctrl+click in the
viewer opens the source of that place in the editor (inverse search).

The logic is a Verus library under `src/`: its functions state what they
return, and Verus proves it. What the proofs rest on is believed, not proved:
the few functions marked `external_body` and the `assume_specification` items,
which say of the standard library and of the color parser what those do. Each
names the function it speaks of. The program around the library is ordinary
Rust under `app/`.

| Module     | What it holds                                                   |
|------------|-----------------------------------------------------------------|
| `records`  | the answers of the `synctex` command, line by line              |
| `synctex`  | forward and inverse searches                                    |
| `ipc`      | the socket an editor talks to, and the lines exchanged on it    |
| `command`  | the editor command of an inverse search and its placeholders    |
| `options`  | what the command line asks for                                  |
| `color`    | colors in CSS notation                                          |
| `terminal` | the size of the terminal in cells and pixels                    |
| `watch`    | when a changed file is reloaded                                 |
| `session`  | what a running viewer does about each thing that happens        |
| `messages` | what the parts of the viewer tell each other                    |
| `paths`    | paths of the file system, as bytes                              |
| `number`   | numbers in words and back                                       |
| `text`     | string operations over sequences of characters                  |

The functions named `law_...` state what holds of several functions together:
that a request reads back as it was written, that a placeholder stands for its
value, that the last change of a file decides.
