# light_code

The protocol-facing core of a lightweight code editor, verified with Verus: how the
editor talks to language servers and debug adapters, and the few decisions its
project sidebar makes.

- `src/` is the verified library. Each module states its behaviour in `requires` /
  `ensures` contracts over mathematical models (sequences, maps, a buffer's text as
  lines of characters):
  - `capabilities`, `requests`, `code_actions`, `completions`, `signature_help`,
    `inlay_hints`, `semantic_tokens`, `document_ranges`, `lsp_items`, `locations`,
    `lsp_responses`, `pull_diagnostics`, `emmet`: requests to language servers and the
    conversion of their replies;
  - `buffer`: which protocol positions lie in a buffer's text, and clipping;
  - `fetch_cache`: when cached per-server results answer a request, and what they answer;
  - `dap_command`: debug-adapter requests and replies;
  - `project_groups`, `git_notifications`, `launch`, `cloud_api_types`: the sidebar's
    decisions, notification texts, the command line, and cloud service values.
- `tests/` runs the library on concrete values.
- `app/` is the command-line entry point and the JSON forms of the library's values.
