# datarace

The verified core of DataRace, a realtime data engine for simracing and
similar telemetry: plugins publish properties, events and actions, and
dashboards in the browser show them.

`src/` is the library, checked by Verus. Every public function states its
result in its contract, and the laws of the library are public proof
functions:

- `codes`, `text`, `decimal`: return codes, trimming and splitting, decimal
  text.
- `hashing`, `handles`, `web_handle`: names hashed into property, event and
  action handles (HighwayHash through the `highway` crate), and their text
  form for the browser.
- `values`: the storage of property values, the store of arrays that
  every handle on an array shares, and polling values for the browser.
- `loader`, `api`: the bookkeeping of a plugin's loader (its properties,
  subscriptions and subscribers, lock messages) and the plugin API on top
  of it.
- `registry`: the data store of all plugins, properties and plugin
  settings, with saving and reloading of settings. It keeps the one
  storage of each property: plugins write and read it there, and the
  dashboards' update task polls it.
- `events`: the event registry (create, subscribe, trigger, remove).
- `config`: the decisions made when reading the configuration and
  preparing folders.
- `dashboard`, `dashboard_js`, `page`, `pages`: dashboard validation, the
  dashboard page with its scripts (escaped as `maud` escapes), and the
  pages of the web interface.
- `web`, `web_updater`: websocket authorization and the task that sends
  property updates to connected dashboards.
- `plugin_api`: the plugin-side value type.

`app/` is the launcher around the library: command line, configuration
files, the plugin folder search, dashboard files, and the event service
thread. `tests/` runs the library on concrete inputs.
