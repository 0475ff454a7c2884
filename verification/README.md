# ejustice_mcp

An MCP bridge to Namibia's public eJustice court portal, with its core
verified in Verus.

- `src/` is the verified library:
  - `text.rs`: whitespace, words, joining, trimming and substring search
    over `Seq<char>`;
  - `strmap.rs`: a string-keyed map with unique keys, viewed as a `Map`;
    it stands for `HashMap<String, String>`, and the attached grid rows
    (`Vec<(String, serde_json::Value)>` with unique titles, stated as
    `grids_unique`) stand for `HashMap<String, Value>`. With `String` keys,
    vstd's specification of `HashMap` proves nothing about what `insert` and
    `get` do (it does for integer keys), so the library keeps its own maps,
    whose contracts are those of a `HashMap`: an insert replaces the value of
    a key present, a lookup finds the value last inserted, and no key occurs
    twice;
  - `types.rs`: case records, accordion sections, document rows and the
    MCP resources built from them;
  - `parser.rs`: reading a case-search page (static fields, hidden inputs,
    relief claims, grid endpoints); HTML parsing, CSS selection and regular
    expressions are `scraper`'s and `regex`'s, reached through a few trusted
    wrappers at the top of the file;
  - `client.rs`: the URLs, form and response handling of the HTTP client;
  - `server.rs`: the answers of the MCP tools and resource handlers.
- `app/` is the program around it: the `reqwest` requests, the `rmcp`
  server and its stdio transport, and the serde forms of the library's
  types.
- `tests/` runs the library on concrete pages, URIs and replies.

The server talks to `https://ejustice.jud.na/ejustice` unless
`EJUSTICE_BASE_URL` names another deployment.
