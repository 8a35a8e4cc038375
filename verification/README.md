# mcp-web-search

An MCP server that gives language models web access through headless Chrome: it fetches
pages as text, searches DuckDuckGo, takes screenshots and performs page actions, and can be
hosted over HTTP behind OAuth 2.1 (PKCE) with an admin API and a request log.

The library in `src/` holds the server's logic, verified with Verus:

| Module | What it decides |
|--------|-----------------|
| `auth` | OAuth state: client registration, the authorization page, code approval, token exchange (PKCE S256), the bearer check, admin-minted tokens, revocation and eviction |
| `admin` | Request log (newest 1000 entries), log pages, dashboard figures, admin sessions and their cookie |
| `jsonrpc` | What the request log reads of a JSON-RPC body (method, tool name, arguments summary) |
| `browser` | Page actions as browser steps, the Cloudflare wait, error texts, search URLs |
| `extraction` | Search results from a DuckDuckGo page, page text from HTML |
| `tools` | The answers of the `fetch`, `search`, `screenshot` and `interact` tools |
| `auth_laws`, `admin_laws`, `tools_laws` | Properties that span several operations, proved |
| `bindings` | The calls into outside crates (`sha2`, `base64`, `uuid`, `urlencoding`, `html2text`, `scraper`, `serde_json`), each with the contract Verus trusts |
| `keyed`, `strings` | Keyed record vectors and string helpers with exact specifications |

Times are passed in as milliseconds: `*_ms` from a monotonic clock, `*_epoch_ms` from the
wall clock.

`app/` is the program around the library: the axum HTTP server, the rmcp tool server (over
stdio or Streamable HTTP), the headless Chrome driver and the clocks.
