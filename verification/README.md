# headroom

A terminal monitor for memory commit pressure, paging and per-process
memory use, with optional AI-written recommendations.

- `src/` is the verified library (Verus):
  - `collect/` — the `/proc/meminfo` and `/proc/swaps` table parsers, memory
    and swap figures (one entry per swap device),
    and the ranking of processes by virtual size;
  - `numfmt` — byte counts rendered exactly as their 64-bit float value
    prints with a fixed number of decimals;
  - `ai` — size labels, the diagnostic prompt, the HTTP request for each
    provider and the reading of its reply;
  - `config` — providers, their default URLs and models, overrides;
  - `tui` — the interactive view's state machine and layout decisions.
- `app/` is the program around it: command line, reading the operating
  system's figures, HTTP, terminal drawing, TOML configuration.

Configuration lives in `~/.config/headroom/config.toml` (`%APPDATA%` on
Windows). The Anthropic provider, the default one, has no preset model:
set `ai.model`. `ai.local_endpoint` names the server of a local provider
(Ollama, LM Studio, ...); `ANTHROPIC_API_KEY` and `OPENAI_API_KEY` in the
environment supply the key of the matching provider.
