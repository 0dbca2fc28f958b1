# sysmon

A terminal system monitor whose widgets are written in Lua.

- `src/` is the verified library: the ordering and rendering of the widget
  panel, usage bars, colour names, the configuration's location, readings
  handed to Lua, process ranking and the sampling schedule, and what the
  lookups and calls made of the Lua state mean for the panel.
- `app/` is the program around it: the Lua engine, which runs the user's Lua
  code, the `sysmon` Lua module's bindings, the terminal, the sampling
  thread, the default configuration and the render loop.
