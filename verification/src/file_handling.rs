//! What the bot writes into its files. The files themselves are opened,
//! created and deleted by the program around the library.
use vstd::prelude::*;
use vstd::string::*;

verus! {

/// A file's contents after `entry` was written to it as a line.
pub open spec fn written_line(contents: Seq<char>, entry: Seq<char>) -> Seq<char> {
    contents + entry + "\n"@
}

/// Writes `entry` as a line at the end of a file opened for appending,
/// whose contents are `file`.
pub fn write_to_file(file: &mut String, entry: &str)
    ensures
        final(file)@ == written_line(old(file)@, entry@),
{
    file.append(entry);
    file.append("\n");
}

/// Writing a line keeps what the file held, adds the entry after it and
/// ends with a line break.
pub proof fn lemma_written_line_appends(contents: Seq<char>, entry: Seq<char>)
    ensures
        written_line(contents, entry).len() == contents.len() + entry.len() + 1,
        contents.is_prefix_of(written_line(contents, entry)),
        written_line(contents, entry).subrange(
            contents.len() as int,
            (contents.len() + entry.len()) as int,
        ) == entry,
        written_line(contents, entry).last() == '\n',
{
    reveal_strlit("\n");
    let w = written_line(contents, entry);
    assert(contents =~= w.subrange(0, contents.len() as int));
    assert(w.subrange(contents.len() as int, (contents.len() + entry.len()) as int) =~= entry);
}

} // verus!
