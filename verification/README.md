# Codex Skill Manager (verified core)

The logic of a desktop tool that keeps Codex skills in two folders,
`skills/` (enabled) and `skills_disabled/` (disabled), creates skills from a
template or a Markdown file, and turns PDF documents into chunked reference
skills.

- `src/` is the library, verified with Verus: slugs and unique directory names,
  form validation and the rendered `SKILL.md`, listing and move planning, the
  single-operation manager and the conflict coordinator, the counts and
  messages of a running operation, and the PDF pipeline (file selection,
  chunking, metadata, rendered skill files). Regular expressions (`regex`) and
  PDF text extraction (`lopdf`) are called through a few trusted wrappers whose
  contracts state what the crates document.
- `tests/` runs the library on concrete values.
- `app/` is the Tauri application around it: the commands, the worker threads,
  the file system, the clock and the dialogs.
