# symphonia_c

Decoding of audio files to interleaved 32-bit float PCM behind a C interface, with
[Symphonia](https://crates.io/crates/symphonia) for the demuxing and the decoding. The logic
between Symphonia and the C caller is verified with Verus.

FLAC, MP3/MPA, WAV/PCM and OGG/Vorbis are enabled. M4A/AAC is not.

## Layout

- `src/` is the verified library.
  - `api` holds the functions of the C interface, with `Option` in place of pointers.
  - `decoder` reads packets, decodes those of one track and keeps the samples that were not taken.
  - `buffer` decodes a whole medium, chunk by chunk.
  - `session` says what came of reading a medium, as a list of rounds.
  - `error`, `status`, `message` and `path` hold failures, status codes, C messages and paths.
  - `media` holds everything that is taken from Symphonia, and what is believed of it.
  - `laws` states what holds of the library as a whole, and `agreement` that streaming a file and
    decoding it as a whole bring the same samples.
- `app/` is the C ABI: raw pointers, files, panics and the message of each thread.
- `tests/` runs the library with Symphonia linked.

A sample is held as the bit pattern of its 32-bit float: the library moves samples and never
computes with them.

## C usage

```c
SymphoniaCAudioBuffer buffer = {0};
int32_t status = symphonia_c_decode_file_f32(path, &buffer);

if (status == SYMPHONIA_C_OK) {
    // buffer.samples is interleaved float PCM.
    // buffer.sample_count == buffer.frames * buffer.channels.
}
else {
    const char *message = symphonia_c_last_error(NULL);
}

symphonia_c_audio_buffer_free(&buffer);
```

For streaming, use `symphonia_c_open_file`, query `symphonia_c_channels` and
`symphonia_c_sample_rate`, call `symphonia_c_read_f32` until it returns
`SYMPHONIA_C_END_OF_STREAM`, then release the handle with `symphonia_c_free`.
