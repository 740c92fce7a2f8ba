# clickhouse_ingestor

OTLP log ingestion into ClickHouse, in Verus: executable Rust whose behaviour is
stated in contracts and proved.

A batch of a buffer goes through these modules of `src/`:

- `envelope`: the four-byte header of each entry, and the check against what the
  ingestor is configured for
- `otlp`, `logs`, `signal`: export requests, flattened into rows that carry their
  source coordinates
- `commit_group`: records gathered until a threshold trips
- `logs_adapter`, `adapter`, `attributes`: records in coordinate order, cut into
  chunks, each under a deduplication token
- `serializer`: the bytes of a chunk, as JSONEachRow or RowBinary
- `writer`: requests, the reading of answers, retries
- `sink`: what a commit turns into and what its outcome means

`bench` holds the measuring side: scripted sinks, the checks of the
acknowledgements, the protocol of a timed run, the synthetic load, and the
documents that a run leaves behind. Statements that relate several functions are
public proof functions whose names start with `law_`.

Numbers that are floating-point are carried as their bits; `app/` computes them.

`app/` is ordinary Rust around the library: the command line, HTTP, metrics, files,
and the drivers of the runs, which are generic over the buffer and the pipeline.
