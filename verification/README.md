# Right Panel

A side panel that lives at the right edge of the screen: clipboard tools,
notes, app shortcuts and data-only plugins.

`src/` is the verified library (Verus):

- `transform` — the clipboard text transforms, specified over `text`'s model
  of splitting, joining and trimming.
- `manifest` — plugin manifests, plugin ids, SemVer-like versions, safe
  relative paths, and the validation rules with their messages.
- `plugins`, `keyed` — the installed plugins, kept in id order with one per
  id; package and archive-entry rules.
- `storage` — each plugin's key-value store and the JSON it is saved as.
- `bridge` — which `window.RightPanel` requests a plugin may make.
- `document` — the page that hosts a plugin, bridge script first.
- `watch` — the edge and clipboard watchers' decisions, tray menu entries.
- `sys` — UTF-16 strings, the remembered foreground window, colours, icon
  pixels, key chords and messages of the desktop integration.
- `util` — Base64, `data:` URIs and the tray icon's pixels; `json` — JSON
  string literals, with serde_json's escapes stated.

`app/` is the program around it: windows, web view, tray, clipboard, files,
archives and the Windows API.
