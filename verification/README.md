# memos-mcp-server

A standalone MCP server for [Memos](https://github.com/usememos/memos), built on a
library that is verified with [Verus](https://github.com/verus-lang/verus).

It offers 22 tools (20 operations of the Memos API and two helpers for tags), 4
prompts, and memos and prompts as `memo://` resources, over streamable HTTP or
stdio.

## Layout

- `src/` is the library. Every function in it has a contract that Verus proves,
  stated over mathematical values: texts are sequences of characters, JSON values
  are trees, requests are records. It decides what is sent to the API, what a
  reply means, which tools a request sees, whose token it carries and where it may
  come from. The few calls into other crates (`http`, `url`, `regex`) stand behind
  small functions whose contracts are taken on trust; each says so where it stands.
- `app/` is the program: it reads the environment, serves MCP, sends HTTP requests
  and turns JSON bytes into the library's values.
- `tests/` runs the library on concrete inputs.

| Module | What it holds |
|--------|---------------|
| `catalog` | the tools, and which of them a filter lets through |
| `filter` | filters from `X-MCP-*` headers and routes, and the server behind one |
| `headers` | what request headers say; the token of a request |
| `origin` | which origins a request may come from |
| `memos` | requests to the API and the meaning of replies |
| `calls`, `server` | the request of each tool, and its outcome |
| `paging`, `tags`, `rename` | listing memos page by page, counting and renaming tags |
| `prompts`, `resources` | prompts, and memos as markdown |
| `config` | address, token and transport |
| `text`, `json`, `pattern`, `outcome`, `params` | the vocabulary of the others |

## Routes and headers

- `/mcp` serves the full catalog, `/mcp/readonly` the 11 tools that only read.
- `/mcp/x/{toolsets}` and `/mcp/x/{toolsets}/readonly` serve some toolsets:
  `memos`, `attachments`, `reactions`, `relations`, `tags`.
- `X-MCP-Readonly`, `X-MCP-Toolsets`, `X-MCP-Tools` and `X-MCP-Exclude-Tools` narrow
  the catalog further for a single request. Where both the header and the route name
  toolsets, a tool must belong to one that both name.
- A request with an `Origin` is refused unless the origin's host is the one in the
  `Host` header or that of `MEMOS_INSTANCE_URL`.
- A request's own `Authorization: Bearer` token is passed on; without one the
  configured token is.

## Configuration

| Variable | Default | Meaning |
|----------|---------|---------|
| `MEMOS_URL` | `http://localhost:5230` | where the Memos API is |
| `MEMOS_TOKEN`, `MEMOS_ACCESS_TOKEN` | empty | token for callers that give none |
| `BIND` | `127.0.0.1:8080` | `host:port`, or a bare port for all interfaces |
| `MEMOS_INSTANCE_URL` | empty | URL whose host browsers may come from |
| `MEMOS_MCP_STDIO` | unset | speak over stdio, as with `--stdio` |
| `RUST_LOG` | | log filter |
