# Glimpse

A screen-and-audio clip recorder for the Windows system tray. It keeps the last seconds of the
screen and of the sound in a rolling buffer, and writes them to an `.mp4` file when a hotkey is
pressed.

`src/` is the recorder's logic, verified with Verus: the buffers of sound and of video segments,
the timing of captured frames and packets, the settings file, hotkeys, ffmpeg's arguments, and
the settings panel's layout, behaviour and picture. `app/` is the program around it: threads,
files, processes and the calls into Windows. `tests/` run the library on concrete values.

| module | what it is about |
| --- | --- |
| `audio_ring`, `audio` | captured sound, and the clip that is cut out of it |
| `segment_ring` | the finished video segments on disk |
| `capture`, `encode`, `mux` | frames, the encoder, and the saving of a clip |
| `settings`, `hotkey` | what the user has chosen |
| `layout`, `overlay`, `paint` | the settings panel |
| `tray`, `log`, `launch` | the tray menu, the log, where ffmpeg is and where clips go |
| `clock`, `text`, `wide` | time, text and UTF-16 |
