# s3_api_common

Verified request-building rules shared by the operations of an S3 client,
written in Verus.

- `validate`: listing limits, part numbers, query tokens and values,
  sub-resources, upload ids, part ETags, content lengths.
- `bucket`: region names and the location constraint of a new bucket.
- `byte_range`: inclusive byte ranges and their `Range` header.
- `parts`: checking and ordering the part list of a multipart completion.
- `header_ops`: header values, optional headers, user metadata and the
  metadata directive of a copy, on an `http::HeaderMap`.
- `service_error`: recognising error documents in response bodies and
  turning them into API errors.
- `search`, `text`: byte search, character classes, decimal numerals.
- `http_items`: the trusted declarations of what is used from `http` and
  `core::str::from_utf8`.
- `laws`: proved properties that relate the rules to one another.

The tests under `tests/` run the library against the `http` crate.
