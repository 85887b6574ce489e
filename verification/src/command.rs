use vstd::prelude::*;

verus! {

/// The commands the interactive console understands.
#[derive(Debug, Clone, Copy, PartialEq, Eq, Structural)]
pub enum Command {
    Import,
    List,
    Corpus,
    Quit,
    Unknown,
}

/// Which command a command word names; `quit` and `exit` both end the
/// console.
pub open spec fn spec_command(word: Seq<char>) -> Command {
    if word == "import"@ {
        Command::Import
    } else if word == "list"@ {
        Command::List
    } else if word == "corpus"@ {
        Command::Corpus
    } else if word == "quit"@ || word == "exit"@ {
        Command::Quit
    } else {
        Command::Unknown
    }
}

/// The line is split at its first space into a command word and the
/// arguments; `i` is that split point.
pub open spec fn splits_line(line: Seq<char>, i: int, cmd: Command, args: Seq<char>) -> bool {
    &&& 0 <= i <= line.len()
    &&& forall|j: int| 0 <= j < i ==> line[j] != ' '
    &&& (i < line.len() ==> line[i] == ' ')
    &&& args == (if i < line.len() {
        line.subrange(i + 1, line.len() as int)
    } else {
        Seq::<char>::empty()
    })
    &&& cmd == spec_command(line.subrange(0, i))
}

/// Splits a console line into its command and its arguments: the first word
/// names the command, everything after the first space is handed to it
/// verbatim.
pub fn parse_command(line: &str) -> (r: (Command, String))
    ensures
        exists|i: int| splits_line(line@, i, r.0, r.1@),
{
    let n = line.unicode_len();
    let mut idx: usize = 0;
    while idx < n && line.get_char(idx) != ' '
        invariant
            n == line@.len(),
            idx <= n,
            forall|j: int| 0 <= j < idx ==> line@[j] != ' ',
        decreases n - idx,
    {
        idx += 1;
    }
    let word = line.substring_char(0, idx).to_owned();
    let args: String = if idx < n {
        line.substring_char(idx + 1, n).to_owned()
    } else {
        String::new()
    };
    let cmd = if word == "import".to_owned() {
        Command::Import
    } else if word == "list".to_owned() {
        Command::List
    } else if word == "corpus".to_owned() {
        Command::Corpus
    } else if word == "quit".to_owned() || word == "exit".to_owned() {
        Command::Quit
    } else {
        Command::Unknown
    };
    let r = (cmd, args);
    proof {
        assert(splits_line(line@, idx as int, r.0, r.1@));
        assert(exists|i: int| splits_line(line@, i, r.0, r.1@));
    }
    r
}

/// Whether some name in the list equals `name`.
pub open spec fn contains_name(corpora: Seq<String>, name: Seq<char>) -> bool {
    exists|i: int| 0 <= i < corpora.len() && (#[trigger] corpora[i])@ == name
}

/// What a `corpus` console command does to the current selection: empty
/// arguments clear it, an available name selects it, and an unknown name
/// leaves it untouched (`None`).
pub fn select_corpus(available: &Vec<String>, args: &str) -> (r: Option<Option<String>>)
    ensures
        (match r {
            Some(sel) => match sel {
                None => args@.len() == 0,
                Some(s) => s@ == args@ && contains_name(available@, args@),
            },
            None => args@.len() > 0 && !contains_name(available@, args@),
        }),
{
    if line_is_empty(args) {
        return Some(None);
    }
    let wanted = args.to_owned();
    let mut i: usize = 0;
    while i < available.len()
        invariant
            i <= available@.len(),
            wanted@ == args@,
            forall|j: int| 0 <= j < i ==> (#[trigger] available@[j])@ != args@,
        decreases available@.len() - i,
    {
        if available[i] == wanted {
            proof {
                assert(available@[i as int]@ == args@);
            }
            return Some(Some(wanted));
        }
        i += 1;
    }
    None
}

fn line_is_empty(s: &str) -> (r: bool)
    ensures
        r == (s@.len() == 0),
{
    s.unicode_len() == 0
}

} // verus!
