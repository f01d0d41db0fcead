//! The decisions of an interactive session: which menu entry a line of input
//! selects, when a password typed twice is accepted, and what is stored of
//! the lines typed for a new entry.

use crate::cipher::KEY_LEN;
use crate::key::{derived_key, pass_to_key};
use crate::record::{matching, views_of, Record, RecordStore, RecordView};
use crate::text::{trim, trimmed};
use vstd::prelude::*;

verus! {

/// What a line typed at the menu asks for.
#[derive(Clone, Copy, Debug, PartialEq, Eq, Structural)]
pub enum Command {
    AddEntry,
    ListEntries,
    Search,
    Quit,
    Invalid,
}

/// The command that a choice selects, once the line is stripped: `1` to `4`
/// in the order of the menu, and anything else is invalid.
pub open spec fn command_of(choice: Seq<char>) -> Command {
    if choice == seq!['1'] {
        Command::AddEntry
    } else if choice == seq!['2'] {
        Command::ListEntries
    } else if choice == seq!['3'] {
        Command::Search
    } else if choice == seq!['4'] {
        Command::Quit
    } else {
        Command::Invalid
    }
}

/// Reads a stripped menu choice.
pub fn command_for(choice: &str) -> (command: Command)
    ensures
        command == command_of(choice@),
{
    if choice.unicode_len() != 1 {
        return Command::Invalid;
    }
    let digit = choice.get_char(0);
    assert(choice@ =~= seq![digit]);
    assert(seq!['1'][0] == '1' && seq!['2'][0] == '2' && seq!['3'][0] == '3' && seq!['4'][0]
        == '4');
    if digit == '1' {
        Command::AddEntry
    } else if digit == '2' {
        Command::ListEntries
    } else if digit == '3' {
        Command::Search
    } else if digit == '4' {
        Command::Quit
    } else {
        Command::Invalid
    }
}

/// Reads a line typed at the menu: white space around the choice, the line
/// end among it, does not count.
pub fn parse_command(line: &str) -> (command: Command)
    ensures
        command == command_of(trimmed(line@)),
{
    command_for(trim(line))
}

/// Accepts a password that was typed twice: the password where both entries
/// are the same text, `None` where they differ.
pub fn confirm_password(first: String, second: &String) -> (accepted: Option<String>)
    ensures
        match accepted {
            Some(password) => first@ == second@ && password@ == first@,
            None => first@ != second@,
        },
{
    if first == *second {
        Some(first)
    } else {
        None
    }
}

/// Derives the key of a new vault from a master password typed twice, or
/// gives `None` where the two entries differ.
pub fn new_master_key(first: &String, second: &String) -> (key: Option<[u8; KEY_LEN]>)
    ensures
        match key {
            Some(bytes) => first@ == second@ && bytes@ == derived_key(first@),
            None => first@ != second@,
        },
{
    if *first == *second {
        Some(pass_to_key(first.as_str()))
    } else {
        None
    }
}

/// Makes the record for a new entry from what was typed: name and username
/// are stripped of the white space around them, the password is kept as it
/// is.
pub fn entry_from_input(
    name_line: &str,
    username_line: &str,
    password: String,
) -> (record: Record)
    ensures
        record@ == (RecordView {
            name: trimmed(name_line@),
            username: trimmed(username_line@),
            password: password@,
        }),
{
    Record::new(trim(name_line).to_owned(), trim(username_line).to_owned(), password)
}

/// Searches `store` for the query typed on `line`, stripped of the white
/// space around it.
pub fn search_for_input<'a>(store: &'a RecordStore, line: &str) -> (found: Vec<&'a Record>)
    ensures
        views_of(found@) == matching(store@, trimmed(line@)),
{
    store.search(trim(line))
}

} // verus!
