# nova_engine

The engine behind the NOVA Emulator launcher: it provisions and starts an
Android Emulator device on Windows, watches it boot over ADB and reports the
engine's state to the desktop shell.

The decisions of the engine are a library verified with Verus; the shell
around it performs the file, process and network work and hands the library
plain values.

## Layout

```text
src/            the verified library
  text.rs         character-level text operations and their specifications
  diagnostics.rs  cleaning emulator output and classifying boot failures
  status.rs       the launch status record and the engine state shown to the user
  adb.rs          reading ADB answers: devices, serials, packages, process ids
  layout.rs       where the runtime keeps its files; settings-file reading and repair
  launch.rs       profiles, boot plans, ports and emulator command lines
  attempt.rs      one boot attempt as a state machine (event in, actions out)
  sequence.rs     the sequence of attempts, with fallbacks between graphics modes
  laws.rs         properties that span several functions, proved
tests/          tests of the library on concrete values
app/            the desktop shell: commands, processes, files and sockets
```
