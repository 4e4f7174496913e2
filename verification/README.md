# voicepeak

Speech synthesis with VOICEPEAK, by a process that is kept between requests.

`src/` is the verified library. It decides and computes, and touches no file and no process.

- `session`: the engine, one synthesis as a sequence of stages, and what takes it from one to the next
- `laws`: what holds of every synthesis
- `wire`: the request that a resident process is sent
- `wav`: the samples inside a WAV file, and whether the file is whole
- `probe`: whether an executable is the known build
- `bytes`, `text`: small parts that the others share

`app/` does what the stages ask for, with tokio. It is given the shared library that makes the
known build resident.
