# swagterm

A terminal viewer for Swagger 2.0 and OpenAPI 3.x specifications: browse the
endpoints grouped by tag, search them, read their parameters, responses and
example bodies, try requests out and copy them as `curl` commands.

The library under `src/` is written in Verus and holds the viewer's logic with
its contracts:

- `text` — text operations (search, replace, split) with their specifications;
- `model`, `swagger` — the specification model and the conversion of Swagger
  2.0 and OpenAPI 3.x documents into it;
- `validate` — the warnings about a specification;
- `app`, `keys` — the state of the viewer and what each key press does to it;
- `request` — URLs, `curl` commands and request plans from the "try it out" form;
- `render`, `screen` — schema outlines, response examples and the lines of
  every panel;
- `laws` — properties that span several operations.

`app/` is the program around it: reading the file or URL, the terminal loop,
sending requests and the clipboard.
