# cos_manager

A small web front for browsing the buckets of a cloud object storage service.

- `src/` is the verified library: the login form check (`login`), the objects of a
  bucket with their links and sizes (`cloud`), the ordering and labelling of a fresh
  listing (`listing`), the details page (`details`), what the pages decide about the
  session's buckets (`session`), string order and integer parsing (`text`), the calls
  into `urlencoding` and `bytesize` (`outside`), and the properties that hold across
  these operations (`laws`).
- `app/` holds the route table, the page handlers, the requests to the identity and
  storage services, and serializable copies of the library's types.
- `tests/` exercises the library on concrete values.
