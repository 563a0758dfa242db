# ikigai-module

The module format of the `ikigai-core` resolution kernel: an independently compiled space of
endpoints, mounted by a host at a few prefixes, whose endpoints call back to the host's kernel
while they run. The host says what a mounted module may do, and the module says what it does
and how it names things.

The decisions are in `src/`, written in Verus and verified:

| Module | What it decides |
| --- | --- |
| `mount`, `lazy` | what a mount routes, lists and tells the kernel of each name |
| `floor` | what a host demands of every caller |
| `rewrite` | how a module declares its naming, and where a host routes a target |
| `cards`, `card` | the cards of a module's endpoints, and which one a target gets |
| `host_side`, `module_side` | a session at either end, step by step |
| `session`, `wire` | what either end makes of a message, and what a message means |
| `provenance` | what the result of a session depends on |
| `frame` | messages on a socket |
| `kernel`, `named`, `text` | the values, names and strings they speak of |
| `outside` | what is taken on trust of `ikigai-core` |

Most modules end with the laws their functions keep, as public proof functions.

`app/` is ordinary Rust around the library: the transports (in process, over byte channels,
over a Unix socket), the `postcard` codec that any other transport can use, and the spaces and endpoints the kernel sees.
