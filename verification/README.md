# git-repos-analysis

Extracts the filtered history of git repositories and turns it into project
summaries.

- `src/` is the verified library: which commits, files and lines of a diff are
  shown, how a long text is cut into chunks, what is asked of the program that
  writes the summaries, and how a run goes on from its checkpoint.
- `app/` holds the command line programs around it: reading repositories and
  files, calling the program that writes the summaries, and writing the results.
- `tests/` runs the library.
