//! The commands that the debugger's user can send to the server beyond what
//! the remote protocol knows, and the GDB script that makes them known to
//! GDB.

use vstd::prelude::*;
use vstd::string::StringExecFns;

verus! {

/// A command of the server that GDB passes on.
pub struct GdbCommand {
    pub name: String,
    /// What GDB tells the user about the command; may be empty.
    pub documentation: String,
}

/// The commands that are registered.
pub struct GdbCommandHandler {
    pub commands: Vec<GdbCommand>,
}

/// The script that makes `cmd` known to GDB: a binding, and the
/// documentation if there is any.
pub open spec fn macro_binding(name: Seq<char>, documentation: Seq<char>) -> Seq<char> {
    let binding = "python RDCmd('"@ + name + "')\n"@;
    if documentation.len() == 0 {
        binding
    } else {
        binding + "document "@ + name + "\n"@ + documentation + "\nend\n"@
    }
}

/// The script for the first `n` of `commands`.
pub open spec fn macro_bindings(commands: Seq<GdbCommand>, n: int) -> Seq<char>
    decreases n,
{
    if n <= 0 {
        Seq::empty()
    } else {
        macro_bindings(commands, n - 1) + macro_binding(
            commands[n - 1].name@,
            commands[n - 1].documentation@,
        )
    }
}

/// Where the first command called `name` stands in `commands`.
pub open spec fn command_index(commands: Seq<GdbCommand>, name: Seq<char>, n: int) -> Option<int>
    decreases n,
{
    if n <= 0 {
        None
    } else {
        match command_index(commands, name, n - 1) {
            Some(i) => Some(i),
            None => if commands[n - 1].name@ == name {
                Some(n - 1)
            } else {
                None
            },
        }
    }
}

impl GdbCommandHandler {
    /// No command.
    pub fn new() -> (r: GdbCommandHandler)
        ensures
            r.commands@.len() == 0,
    {
        GdbCommandHandler { commands: Vec::new() }
    }

    /// Make `cmd` one of the commands.
    pub fn register_command(&mut self, cmd: GdbCommand)
        ensures
            final(self).commands@ == old(self).commands@.push(cmd),
    {
        self.commands.push(cmd);
    }

    /// The script that declares every registered command to GDB, in the
    /// order in which they were registered.
    pub fn gdb_macros(&self) -> (r: String)
        ensures
            r@ == macro_bindings(self.commands@, self.commands@.len() as int),
    {
        let mut ss = String::new();
        let mut i: usize = 0;
        while i < self.commands.len()
            invariant
                i <= self.commands@.len(),
                ss@ == macro_bindings(self.commands@, i as int),
            decreases self.commands@.len() - i,
        {
            let cmd = &self.commands[i];
            let ghost before = ss@;
            ss.append("python RDCmd('");
            ss.append(cmd.name.as_str());
            ss.append("')\n");
            if !cmd.documentation.as_str().is_empty() {
                ss.append("document ");
                ss.append(cmd.name.as_str());
                ss.append("\n");
                ss.append(cmd.documentation.as_str());
                ss.append("\nend\n");
            }
            proof {
                assert(ss@ =~= before + macro_binding(cmd.name@, cmd.documentation@));
            }
            i = i + 1;
        }
        ss
    }

    /// The command called `name`: where it stands among the registered
    /// commands, or `None` if there is none of that name.
    pub fn command_for_name(&self, name: &str) -> (r: Option<usize>)
        ensures
            match r {
                Some(i) => command_index(
                    self.commands@,
                    name@,
                    self.commands@.len() as int,
                ) == Some(i as int) && i < self.commands@.len(),
                None => command_index(self.commands@, name@, self.commands@.len() as int)
                    is None,
            },
    {
        let wanted = String::from_str(name);
        let mut i: usize = 0;
        while i < self.commands.len()
            invariant
                i <= self.commands@.len(),
                wanted@ == name@,
                command_index(self.commands@, name@, i as int) is None,
            decreases self.commands@.len() - i,
        {
            if self.commands[i].name == wanted {
                proof {
                    lemma_command_index_found(
                        self.commands@,
                        name@,
                        i as int,
                        self.commands@.len() as int,
                    );
                }
                return Some(i);
            }
            i = i + 1;
        }
        None
    }

    /// What a command answers to have a diversion session ended at once.
    pub fn cmd_end_diversion() -> (r: &'static str)
        ensures
            r@ == "RDCmd_EndDiversion"@,
    {
        "RDCmd_EndDiversion"
    }
}

/// Once a command of the name is found, it stays the first.
pub proof fn lemma_command_index_found(commands: Seq<GdbCommand>, name: Seq<char>, i: int, n: int)
    requires
        0 <= i < n <= commands.len(),
        command_index(commands, name, i) is None,
        commands[i].name@ == name,
    ensures
        command_index(commands, name, n) == Some(i),
    decreases n - i,
{
    if n > i + 1 {
        lemma_command_index_found(commands, name, i, n - 1);
    }
}

/// The pieces of `payload` between its colons, the first `n` bytes of it
/// taken into account. The last piece is the one that is still open.
pub open spec fn split_at_colons(payload: Seq<u8>, n: int) -> Seq<Seq<u8>>
    decreases n,
{
    if n <= 0 {
        seq![Seq::<u8>::empty()]
    } else {
        let pieces = split_at_colons(payload, n - 1);
        if payload[n - 1] == 58u8 {
            pieces.push(Seq::empty())
        } else {
            pieces.update(pieces.len() - 1, pieces.last().push(payload[n - 1]))
        }
    }
}

/// The views of a run of byte strings.
pub open spec fn piece_views(pieces: Seq<Vec<u8>>) -> Seq<Seq<u8>> {
    Seq::new(pieces.len(), |i: int| pieces[i]@)
}

/// A payload of the form `name:arg1:arg2:..` taken apart: the name of the
/// command is the first piece, its arguments are the others. An empty
/// payload has an empty name and no argument.
pub fn parse_command(payload: &Vec<u8>) -> (pieces: Vec<Vec<u8>>)
    ensures
        piece_views(pieces@) == split_at_colons(payload@, payload@.len() as int),
        pieces@.len() >= 1,
{
    let mut pieces: Vec<Vec<u8>> = Vec::new();
    let mut open: Vec<u8> = Vec::new();
    let mut i: usize = 0;
    while i < payload.len()
        invariant
            i <= payload@.len(),
            piece_views(pieces@).push(open@) == split_at_colons(payload@, i as int),
        decreases payload@.len() - i,
    {
        let ghost before = piece_views(pieces@).push(open@);
        if payload[i] == 58u8 {
            pieces.push(open);
            open = Vec::new();
            assert(piece_views(pieces@).push(open@) =~= before.push(Seq::empty()));
        } else {
            open.push(payload[i]);
            assert(piece_views(pieces@).push(open@) =~= before.update(
                before.len() - 1,
                before.last().push(payload@[i as int]),
            ));
        }
        i = i + 1;
    }
    let ghost all = piece_views(pieces@).push(open@);
    pieces.push(open);
    assert(piece_views(pieces@) =~= all);
    pieces
}

/// `piece` holds no colon.
pub open spec fn colon_free(piece: Seq<u8>) -> bool {
    forall|j: int| 0 <= j < piece.len() ==> #[trigger] piece[j] != 58u8
}

/// A payload falls into at least one piece, and no piece holds a colon.
pub proof fn lemma_split_at_colons(payload: Seq<u8>, n: int)
    requires
        0 <= n <= payload.len(),
    ensures
        split_at_colons(payload, n).len() >= 1,
        forall|i: int|
            0 <= i < split_at_colons(payload, n).len() ==> colon_free(
                #[trigger] split_at_colons(payload, n)[i],
            ),
    decreases n,
{
    if n > 0 {
        lemma_split_at_colons(payload, n - 1);
        let before = split_at_colons(payload, n - 1);
        let after = split_at_colons(payload, n);
        assert forall|i: int| 0 <= i < after.len() implies colon_free(#[trigger] after[i]) by {
            if payload[n - 1] == 58u8 {
                if i < before.len() {
                    assert(after[i] == before[i]);
                }
            } else if i < before.len() - 1 {
                assert(after[i] == before[i]);
            } else {
                assert(colon_free(before[before.len() - 1]));
                assert forall|j: int| 0 <= j < after[i].len() implies #[trigger] after[i][j]
                    != 58u8 by {
                    if j < before.last().len() {
                        assert(before.last()[j] != 58u8);
                    }
                }
            }
        }
    }
}

/// What to do about a payload that names a command.
pub enum CommandCall {
    /// Call the registered command at `command` with the arguments `args`.
    Invoke { command: usize, args: Vec<Vec<u8>> },
    /// No command of the name `name` is registered.
    NotFound { name: Vec<u8> },
}

/// Where the first command whose name, in UTF-8, has the bytes `name` stands among
/// the first `n` of `commands`.
pub open spec fn command_index_by_bytes(commands: Seq<GdbCommand>, name: Seq<u8>, n: int) -> Option<
    int,
>
    decreases n,
{
    if n <= 0 {
        None
    } else {
        match command_index_by_bytes(commands, name, n - 1) {
            Some(i) => Some(i),
            None => if vstd::utf8::encode_utf8(commands[n - 1].name@) == name {
                Some(n - 1)
            } else {
                None
            },
        }
    }
}

proof fn lemma_command_index_by_bytes_found(
    commands: Seq<GdbCommand>,
    name: Seq<u8>,
    i: int,
    n: int,
)
    requires
        0 <= i < n <= commands.len(),
        command_index_by_bytes(commands, name, i) is None,
        vstd::utf8::encode_utf8(commands[i].name@) == name,
    ensures
        command_index_by_bytes(commands, name, n) == Some(i),
    decreases n - i,
{
    if n > i + 1 {
        lemma_command_index_by_bytes_found(commands, name, i, n - 1);
    }
}

impl GdbCommandHandler {
    /// Take apart a payload of the form `name:arg1:arg2:..` and find the
    /// command that it names: the first registered command whose name is the
    /// payload's first piece. The other pieces are the command's arguments.
    pub fn process_command(&self, payload: &Vec<u8>) -> (r: CommandCall)
        ensures
            ({
                let pieces = split_at_colons(payload@, payload@.len() as int);
                let found = command_index_by_bytes(
                    self.commands@,
                    pieces[0],
                    self.commands@.len() as int,
                );
                match r {
                    CommandCall::Invoke { command, args } => found == Some(command as int)
                        && command < self.commands@.len() && piece_views(args@) == pieces.skip(1),
                    CommandCall::NotFound { name } => found is None && name@ == pieces[0],
                }
            }),
    {
        let mut pieces = parse_command(payload);
        let ghost all = piece_views(pieces@);
        let name: Vec<u8> = pieces.remove(0);
        assert(piece_views(pieces@) =~= all.skip(1));
        assert(name@ == all[0]);
        let mut i: usize = 0;
        while i < self.commands.len()
            invariant
                i <= self.commands@.len(),
                all == split_at_colons(payload@, payload@.len() as int),
                all.len() >= 1,
                name@ == all[0],
                piece_views(pieces@) == all.skip(1),
                command_index_by_bytes(self.commands@, name@, i as int) is None,
            decreases self.commands@.len() - i,
        {
            let candidate = self.commands[i].name.as_str().as_bytes();
            if same_as_slice(&name, candidate) {
                proof {
                    lemma_command_index_by_bytes_found(
                        self.commands@,
                        name@,
                        i as int,
                        self.commands@.len() as int,
                    );
                }
                return CommandCall::Invoke { command: i, args: pieces };
            }
            i = i + 1;
        }
        CommandCall::NotFound { name }
    }
}

/// Whether `a` holds the bytes of `b`.
pub fn same_as_slice(a: &Vec<u8>, b: &[u8]) -> (r: bool)
    ensures
        r == (a@ == b@),
{
    if a.len() != b.len() {
        return false;
    }
    let mut i: usize = 0;
    while i < a.len()
        invariant
            i <= a@.len(),
            a@.len() == b@.len(),
            forall|k: int| 0 <= k < i ==> a@[k] == b@[k],
        decreases a@.len() - i,
    {
        if a[i] != b[i] {
            return false;
        }
        i = i + 1;
    }
    assert(a@ =~= b@);
    true
}

} // verus!
