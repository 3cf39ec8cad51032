# Streamer template

A bidirectional streaming service: a client streams PCM audio over a websocket, the service runs a
CPU-bound model on it and streams observations back. The model here is a stand-in that counts
samples, at a configurable speed and reliability.

- `src/` is the library. It does no I/O: it holds the rules of the service as functions and state
  machines, each with a contract that Verus proves. Modules named `*_laws` prove what holds of a
  whole stream, such as that audio at the model's rate comes out of decoding as it went in, on
  every channel.
- `tests/` runs the library on concrete audio, messages and events.
- `app/` is the service and its client: sockets, tasks, clocks, resampling, voice activity
  detection, and everything that is floating point. The client runs when the program is started
  under the name `client`.

Samples, times and model parameters are type parameters of the library, so that it never depends
on how they are represented.

## Running

The service reads the model's parameters from `config.json` and listens on port 8080:

- `/api/v1/simple` runs the model on all the audio,
- `/api/v1/segmented` runs it on the parts that contain speech,
- `/api/v1/health` says that the service is up,
- `/metrics` gives task, runtime and pipeline metrics for Prometheus.

The client takes the recording to stream with `-i`, and the address with `--addr`. `--real-time`
makes it keep the pace of the recording, and `--interim-results` asks for partial results.
