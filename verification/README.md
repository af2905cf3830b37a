# sudoors

Temporary sudo rights for users on hosts. A server keeps grants (a user, a
duration, a list of hosts) in a SQLite store and answers agents over gRPC;
each agent polls the server and keeps its host's sudoers files in line with
the grants for that host. A standalone mode writes sudoers files directly
from HTTP requests.

Layout:

- `src/` is the verified library (Verus): the text helpers, how grants are
  stored and read back, which stored grants concern a host, the sudoers
  files made from grants, the agent's reconciliation, and the answers of the
  HTTP and gRPC services. Laws such as "stored host names read back
  unchanged" and "a poll leaves exactly the reported users" are proof
  functions there.
- The library renders the sudoers template (`templates/sudoers.j2`) itself,
  with a proved result, when it is plain: text, comments, and the tag
  `{{ username }}`. Any other template the program renders with the template
  engine outside the library, and the library makes the file from the result.
- `app/` is the program around it: command line, SQLite access, files,
  HTTP and gRPC servers, timers.
- `tests/` exercises the library on concrete values.
