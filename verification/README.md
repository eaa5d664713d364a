# media_subtitle_worker

A worker that reads requests for subtitles from Kafka, downloads the audio from an S3-compatible
storage, has it transcribed, uploads the transcript as WebVTT and SRT, and publishes the result.

`src/` is the verified library. It holds the rules of the worker and does no input or output. Work
that alternates with the outside is written as a machine: a step takes what became of the last
action and returns the next one.

| Module | What it holds |
| --- | --- |
| `subtitle` | rendering of transcripts as WebVTT and SRT |
| `pipeline` | one attempt: which objects are downloaded, put together, transcribed and uploaded |
| `retry` | all attempts for a request, the waits between them and what is published at the end |
| `whisper`, `wav`, `speakers` | one transcription by a Whisper model: decoding, samples, speakers |
| `transcriber`, `transcript` | the choice of a transcriber, and what a transcription yields |
| `kafka`, `consumer`, `client_config` | messages, their topics and keys, and the client settings |
| `loader_s3`, `settings` | the storage and the environment |
| `file_id`, `object_path`, `ordering`, `number`, `text`, `failure`, `clock` | what the others build on |

`app/` performs the actions: it receives the messages in a loop and skips those that are no
requests, talks to Kafka and to the storage, and runs ffmpeg, the model and pyannote. It also holds
what the library cannot: the JSON form of the messages, in both directions, and the samples as
floating-point numbers, which it reads and scales. The model is part of a build with the feature
`whisper-rs-backend`; without it only the transcriber `mock` works.

`tests/` runs the library.
