# ai-semantic-cache

A gateway policy that answers an LLM request from the cached response to an
earlier, similar one: first by an identical request body, then by the similarity
of the prompt's embedding.

- `src/` is the library, verified with Verus. It decides what is asked of an
  embedder and of a vector store, what their replies mean, and what becomes of a
  request and of its response.
- `app/` sends the calls, keeps the exact cache in the platform's key-value store
  and starts the policy, once per vector store (Pinecone, Qdrant, Azure AI Search).
- `tests/` runs the library on concrete requests and replies.

| Module | What it holds |
|---|---|
| `text`, `digest`, `ieee`, `json` | strings, SHA-256 digests, floating-point numbers by their bits, JSON documents |
| `config`, `error` | thresholds, TTLs, failure modes; errors and their messages |
| `key`, `extract` | canonical prompts and cache keys; prompts by provider |
| `embed` | calls to an OpenAI-compatible embeddings endpoint and their replies |
| `store`, `pinecone`, `qdrant`, `azure` | calls to the vector stores and their replies |
| `replay`, `engine` | replayed responses; the decision about a request, step by step |
| `driver`, `policy` | the request and the response filter; an operator's settings |
