use vstd::prelude::*;

verus! {

/// Whether `shorter` is a prefix of `longer`.
pub open spec fn is_prefix(shorter: Seq<char>, longer: Seq<char>) -> bool {
    shorter.len() <= longer.len() && longer.subrange(0, shorter.len() as int) == shorter
}

/// The known commands the line is a prefix of, in order.
pub open spec fn matching_commands(known: Seq<Seq<char>>, line: Seq<char>) -> Seq<Seq<char>>
    decreases known.len(),
{
    if known.len() == 0 {
        Seq::empty()
    } else {
        let rest = matching_commands(known.drop_first(), line);
        if is_prefix(line, known[0]) {
            rest.insert(0, known[0])
        } else {
            rest
        }
    }
}

proof fn lemma_matching_take(known: Seq<Seq<char>>, line: Seq<char>, i: int)
    requires
        0 <= i < known.len(),
    ensures
        matching_commands(known.take(i + 1), line) == if is_prefix(line, known[i]) {
            matching_commands(known.take(i), line).push(known[i])
        } else {
            matching_commands(known.take(i), line)
        },
    decreases i,
{
    if i == 0 {
        assert(known.take(1).drop_first() =~= Seq::<Seq<char>>::empty());
        assert(known.take(0) =~= Seq::<Seq<char>>::empty());
        if is_prefix(line, known[0]) {
            assert(matching_commands(known.take(1), line) =~= matching_commands(
                known.take(0),
                line,
            ).push(known[0]));
        }
    } else {
        lemma_matching_take(known.drop_first(), line, i - 1);
        assert(known.take(i + 1).drop_first() =~= known.drop_first().take(i));
        assert(known.take(i).drop_first() =~= known.drop_first().take(i - 1));
        assert(known.take(i + 1)[0] == known[0]);
        assert(known.take(i)[0] == known[0]);
        assert(known.drop_first()[i - 1] == known[i]);
        if is_prefix(line, known[0]) {
            assert(matching_commands(known.take(i + 1), line) =~= if is_prefix(line, known[i]) {
                matching_commands(known.take(i), line).push(known[i])
            } else {
                matching_commands(known.take(i), line)
            });
        }
    }
}

/// Whether `line` is a prefix of `candidate`, checked character by
/// character.
fn starts_with(candidate: &String, line: &str) -> (r: bool)
    ensures
        r == is_prefix(line@, candidate@),
{
    let cand = candidate.as_str();
    let n = line.unicode_len();
    if n > cand.unicode_len() {
        return false;
    }
    let mut i: usize = 0;
    while i < n
        invariant
            n == line@.len(),
            n <= cand@.len(),
            cand@ == candidate@,
            i <= n,
            forall|m: int| 0 <= m < i ==> cand@[m] == line@[m],
        decreases n - i,
    {
        if cand.get_char(i) != line.get_char(i) {
            proof {
                assert(candidate@.subrange(0, line@.len() as int)[i as int]
                    == candidate@[i as int]);
            }
            return false;
        }
        i += 1;
    }
    proof {
        assert(candidate@.subrange(0, line@.len() as int) =~= line@);
    }
    true
}

/// Completes console commands from a fixed, alphabetically ordered command
/// list.
pub struct CommandCompleter {
    known_commands: Vec<String>,
}

impl View for CommandCompleter {
    type V = Seq<Seq<char>>;

    closed spec fn view(&self) -> Seq<Seq<char>> {
        self.known_commands@.map_values(|s: String| s@)
    }
}

impl CommandCompleter {
    /// A completer that knows the console's commands.
    pub fn new() -> (r: CommandCompleter)
        ensures
            r@ == seq!["corpus"@, "exit"@, "import"@, "list"@, "quit"@],
    {
        let mut known_commands: Vec<String> = Vec::new();
        known_commands.push("corpus".to_owned());
        known_commands.push("exit".to_owned());
        known_commands.push("import".to_owned());
        known_commands.push("list".to_owned());
        known_commands.push("quit".to_owned());
        let r = CommandCompleter { known_commands };
        proof {
            assert(r@ =~= seq!["corpus"@, "exit"@, "import"@, "list"@, "quit"@]);
        }
        r
    }

    /// Completion with the cursor at the end of the line: every known
    /// command the line is a prefix of, in order. With the cursor anywhere
    /// else, no completion is offered. `pos` counts characters.
    pub fn complete(&self, line: &str, pos: usize) -> (r: (usize, Vec<String>))
        ensures
            r.0 == 0,
            pos == line@.len() ==> r.1@.map_values(|s: String| s@) == matching_commands(
                self@,
                line@,
            ),
            pos != line@.len() ==> r.1@.len() == 0,
    {
        let mut cmds: Vec<String> = Vec::new();
        if pos == line.unicode_len() {
            let mut i: usize = 0;
            while i < self.known_commands.len()
                invariant
                    i <= self@.len(),
                    self@.len() == self.known_commands@.len(),
                    cmds@.map_values(|s: String| s@) == matching_commands(
                        self@.take(i as int),
                        line@,
                    ),
                decreases self@.len() - i,
            {
                proof {
                    lemma_matching_take(self@, line@, i as int);
                }
                if starts_with(&self.known_commands[i], line) {
                    let ghost before = cmds@.map_values(|s: String| s@);
                    cmds.push(self.known_commands[i].clone());
                    proof {
                        assert(cmds@.map_values(|s: String| s@) =~= before.push(
                            self@[i as int],
                        ));
                    }
                }
                i += 1;
            }
            proof {
                assert(self@.take(self@.len() as int) =~= self@);
            }
        }
        (0, cmds)
    }
}

} // verus!
