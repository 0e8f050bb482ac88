# worktree_dashboard

The worktree tab of a terminal dashboard for git worktrees, written and proved in Verus.

`src/` holds the state of the tab and decides what every key press does to it. It performs nothing
itself: where git, GitHub, the terminal multiplexer or a background thread has to act, an operation
hands out a request, and the outcome comes back as an argument of a later call.

| module | what it holds |
| --- | --- |
| `types`, `app` | the values of the tab, the dashboard's state, tabs and the fetching of the list |
| `navigation`, `age` | filtering, sorting, selection, preview, opening and jumping |
| `removal` | removing a worktree after confirmation, closing its window |
| `sweep` | finding worktrees whose work is done, and removing those chosen |
| `picker`, `projects`, `base` | the pickers for a project and for a base branch |
| `add_worktree`, `adding`, `job` | the modal that adds a worktree, and its background job |
| `text`, `paths`, `order`, `select`, `listing`, `collections` | text, paths, orders, picking by a predicate, lists without repetition, maps and sets |

Properties that span several operations stand beside them as public proof functions whose names begin
with `law_`.

`app/` is the ordinary Rust around the library: it runs the threads, calls git and the workflows
through the `Host` trait, and hands the answers back. `tests/` runs the library on concrete values.

Paths are UTF-8 text with `/` between the components, and compared component by component; moments are milliseconds on one monotonic
clock.
