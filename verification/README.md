# catsu

A client for text-embedding providers (OpenAI, VoyageAI, Cohere, Jina, Mistral,
Gemini, Together, Mixedbread, Nomic, DeepInfra, OpenRouter, Vercel AI Gateway,
Cloudflare), written in Verus.

- `src/` is the verified library: provider registration from explicit keys or
  environment variables (`client`), model-string routing and request
  preparation (`client`), the model catalog (`catalog`), the Vercel AI Gateway
  request body, key choice, answer ordering and error mapping
  (`providers::vercel`), stable ordering by index (`order`), retry and backoff
  decisions (`http`), decimal and JSON-string pieces (`json`), and name/value
  lookups (`keys`).
- `app/` is the network side: a `reqwest` transport that follows the library's
  retry decisions, the asynchronous `Client` and the provider calls, and the
  response type, which carries floating-point vectors.
- `tests/` exercises the library on concrete values.
