//! Commands as the router sees them: a list of byte-string arguments, the
//! first of which (sometimes with the second) names the command.

use crate::text::first_index_from;
use vstd::prelude::*;
use vstd::string::StringSliceAdditionalSpecFns;

verus! {

/// The bytes of a command word, as written in the routing tables.
pub open spec fn word(text: &str) -> Seq<u8> {
    text.spec_bytes()
}

/// Upper-case form of an ASCII letter; any other byte unchanged.
pub open spec fn upper_byte(b: u8) -> u8 {
    if 0x61 <= b <= 0x7a {
        (b - 0x20) as u8
    } else {
        b
    }
}

/// `s` with its ASCII letters in upper case.
pub open spec fn upper(s: Seq<u8>) -> Seq<u8> {
    Seq::new(s.len(), |i: int| upper_byte(s[i]))
}

/// Commands whose name takes a second word.
pub open spec fn takes_subcommand(primary: Seq<u8>) -> bool {
    primary == word("XGROUP") || primary == word("OBJECT") || primary == word("SLOWLOG")
        || primary == word("FUNCTION") || primary == word("MODULE") || primary == word("COMMAND")
        || primary == word("PUBSUB") || primary == word("CONFIG") || primary == word("MEMORY")
        || primary == word("XINFO") || primary == word("CLIENT") || primary == word("ACL")
        || primary == word("SCRIPT") || primary == word("CLUSTER") || primary == word("LATENCY")
}

/// The name under which a command is looked up: its first argument in upper
/// case, followed for some commands by a space and the second argument in
/// upper case. `None` for a command without arguments.
pub open spec fn command_name(args: Seq<Seq<u8>>) -> Option<Seq<u8>> {
    if args.len() == 0 {
        None
    } else {
        let primary = upper(args[0]);
        if takes_subcommand(primary) && args.len() > 1 {
            Some(primary + seq![0x20u8] + upper(args[1]))
        } else {
            Some(primary)
        }
    }
}

/// Index of the first argument that equals `candidate` without regard to
/// ASCII case.
pub open spec fn arg_position(args: Seq<Seq<u8>>, candidate: Seq<u8>) -> Option<int> {
    first_index_from(Seq::new(args.len(), |i: int| upper(args[i])), upper(candidate), 0)
}

/// A command: its name and arguments, in order.
#[derive(Debug)]
pub struct Cmd {
    args: Vec<Vec<u8>>,
}

impl View for Cmd {
    type V = Seq<Seq<u8>>;

    closed spec fn view(&self) -> Seq<Seq<u8>> {
        Seq::new(self.args@.len(), |i: int| self.args@[i]@)
    }
}

/// A sequence of commands sent to one node in one round trip.
#[derive(Debug)]
pub struct Pipeline {
    commands: Vec<Cmd>,
}

impl View for Pipeline {
    type V = Seq<Seq<Seq<u8>>>;

    closed spec fn view(&self) -> Seq<Seq<Seq<u8>>> {
        Seq::new(self.commands@.len(), |i: int| self.commands@[i]@)
    }
}

/// True when `data` holds exactly the bytes of `text`.
pub fn bytes_are(data: &[u8], text: &str) -> (r: bool)
    ensures
        r == (data@ == word(text)),
{
    let other = text.as_bytes();
    if data.len() != other.len() {
        return false;
    }
    let mut i: usize = 0;
    while i < data.len()
        invariant
            i <= data.len() == other.len(),
            other@ == word(text),
            forall|j: int| 0 <= j < i ==> data@[j] == other@[j],
        decreases data.len() - i,
    {
        if data[i] != other[i] {
            return false;
        }
        i += 1;
    }
    assert(data@ =~= other@);
    true
}

/// True when the two byte strings are equal.
pub fn bytes_equal(a: &[u8], b: &[u8]) -> (r: bool)
    ensures
        r == (a@ == b@),
{
    if a.len() != b.len() {
        return false;
    }
    let mut i: usize = 0;
    while i < a.len()
        invariant
            i <= a.len() == b.len(),
            forall|j: int| 0 <= j < i ==> a@[j] == b@[j],
        decreases a.len() - i,
    {
        if a[i] != b[i] {
            return false;
        }
        i += 1;
    }
    assert(a@ =~= b@);
    true
}

/// A copy of `data`.
pub fn copy_bytes(data: &[u8]) -> (copy: Vec<u8>)
    ensures
        copy@ == data@,
{
    let mut copy: Vec<u8> = Vec::with_capacity(data.len());
    let mut i: usize = 0;
    while i < data.len()
        invariant
            i <= data.len(),
            copy@ == data@.subrange(0, i as int),
        decreases data.len() - i,
    {
        copy.push(data[i]);
        i += 1;
    }
    copy
}

/// `data` with its ASCII letters in upper case.
pub fn upper_of(data: &[u8]) -> (out: Vec<u8>)
    ensures
        out@ == upper(data@),
{
    let mut out: Vec<u8> = Vec::with_capacity(data.len());
    let mut i: usize = 0;
    while i < data.len()
        invariant
            i <= data.len(),
            out.len() == i,
            forall|j: int| 0 <= j < i ==> out@[j] == upper_byte(data@[j]),
        decreases data.len() - i,
    {
        let b = data[i];
        if 0x61 <= b && b <= 0x7a {
            out.push(b - 0x20);
        } else {
            out.push(b);
        }
        i += 1;
    }
    out
}

fn names_subcommand(primary: &[u8]) -> (r: bool)
    ensures
        r == takes_subcommand(primary@),
{
    bytes_are(primary, "XGROUP") || bytes_are(primary, "OBJECT") || bytes_are(primary, "SLOWLOG")
        || bytes_are(primary, "FUNCTION") || bytes_are(primary, "MODULE") || bytes_are(
        primary,
        "COMMAND",
    ) || bytes_are(primary, "PUBSUB") || bytes_are(primary, "CONFIG") || bytes_are(
        primary,
        "MEMORY",
    ) || bytes_are(primary, "XINFO") || bytes_are(primary, "CLIENT") || bytes_are(primary, "ACL")
        || bytes_are(primary, "SCRIPT") || bytes_are(primary, "CLUSTER") || bytes_are(
        primary,
        "LATENCY",
    )
}

/// A command with the given name and no further arguments.
pub fn cmd(name: &str) -> (command: Cmd)
    ensures
        command@ == seq![word(name)],
{
    let mut command = Cmd::new();
    command.arg(name.as_bytes());
    command
}

impl Cmd {
    /// A command without arguments.
    pub fn new() -> (command: Cmd)
        ensures
            command@ == Seq::<Seq<u8>>::empty(),
    {
        let command = Cmd { args: Vec::new() };
        command
    }

    /// Appends one argument.
    pub fn arg(&mut self, arg: &[u8]) -> (this: &mut Cmd)
        ensures
            this@ == old(self)@.push(arg@),
            *final(self) == *final(this),
    {
        self.args.push(copy_bytes(arg));
        self
    }

    /// Number of arguments, the name included.
    pub fn len(&self) -> (n: usize)
        ensures
            n == self@.len(),
    {
        self.args.len()
    }

    /// The argument at `idx`, counting the name as argument 0.
    pub fn arg_idx(&self, idx: usize) -> (arg: Option<&[u8]>)
        ensures
            match arg {
                Some(a) => idx < self@.len() && a@ == self@[idx as int],
                None => idx >= self@.len(),
            },
    {
        if idx < self.args.len() {
            Some(self.args[idx].as_slice())
        } else {
            None
        }
    }

    /// The name under which the command is routed.
    pub fn command(&self) -> (name: Option<Vec<u8>>)
        ensures
            match name {
                Some(n) => command_name(self@) == Some(n@),
                None => command_name(self@) is None,
            },
    {
        if self.args.len() == 0 {
            return None;
        }
        let mut name = upper_of(self.args[0].as_slice());
        if names_subcommand(name.as_slice()) && self.args.len() > 1 {
            let ghost primary = name@;
            let second = upper_of(self.args[1].as_slice());
            name.push(0x20);
            let mut i: usize = 0;
            while i < second.len()
                invariant
                    i <= second.len(),
                    name@ == primary + seq![0x20u8] + second@.subrange(0, i as int),
                decreases second.len() - i,
            {
                name.push(second[i]);
                i += 1;
            }
        }
        Some(name)
    }

    /// Index of the first argument equal to `candidate`, ignoring ASCII case.
    pub fn position(&self, candidate: &[u8]) -> (at: Option<usize>)
        ensures
            match at {
                Some(i) => arg_position(self@, candidate@) == Some(i as int) && i < self@.len(),
                None => arg_position(self@, candidate@) is None,
            },
    {
        let wanted = upper_of(candidate);
        let ghost uppers = Seq::new(self@.len(), |i: int| upper(self@[i]));
        let mut i: usize = 0;
        while i < self.args.len()
            invariant
                i <= self.args.len() == self@.len(),
                wanted@ == upper(candidate@),
                uppers == Seq::new(self@.len(), |i: int| upper(self@[i])),
                first_index_from(uppers, wanted@, 0) == first_index_from(uppers, wanted@, i as int),
            decreases self.args.len() - i,
        {
            let current = upper_of(self.args[i].as_slice());
            if bytes_equal(current.as_slice(), wanted.as_slice()) {
                return Some(i);
            }
            i += 1;
        }
        None
    }

    /// A copy of this command.
    pub fn duplicate(&self) -> (copy: Cmd)
        ensures
            copy@ == self@,
    {
        let mut copy = Cmd { args: Vec::with_capacity(self.args.len()) };
        let mut i: usize = 0;
        while i < self.args.len()
            invariant
                i <= self.args.len(),
                copy.args.len() == i,
                forall|j: int| 0 <= j < i ==> copy.args@[j]@ == self.args@[j]@,
            decreases self.args.len() - i,
        {
            copy.args.push(copy_bytes(self.args[i].as_slice()));
            i += 1;
        }
        copy
    }
}

impl Pipeline {
    /// An empty pipeline.
    pub fn new() -> (pipeline: Pipeline)
        ensures
            pipeline@ == Seq::<Seq<Seq<u8>>>::empty(),
    {
        let pipeline = Pipeline { commands: Vec::new() };
        pipeline
    }

    /// Appends a command.
    pub fn add_command(&mut self, command: Cmd) -> (this: &mut Pipeline)
        ensures
            this@ == old(self)@.push(command@),
            *final(self) == *final(this),
    {
        self.commands.push(command);
        self
    }

    /// Appends `GET key`.
    pub fn get(&mut self, key: &str) -> (this: &mut Pipeline)
        ensures
            this@ == old(self)@.push(seq![word("GET"), word(key)]),
            *final(self) == *final(this),
    {
        let mut command = cmd("GET");
        command.arg(key.as_bytes());
        assert(command@ =~= seq![word("GET"), word(key)]);
        self.add_command(command)
    }

    /// Appends `SET key value`.
    pub fn set(&mut self, key: &str, value: &str) -> (this: &mut Pipeline)
        ensures
            this@ == old(self)@.push(seq![word("SET"), word(key), word(value)]),
            *final(self) == *final(this),
    {
        let mut command = cmd("SET");
        command.arg(key.as_bytes());
        command.arg(value.as_bytes());
        assert(command@ =~= seq![word("SET"), word(key), word(value)]);
        self.add_command(command)
    }

    /// Number of commands.
    pub fn len(&self) -> (n: usize)
        ensures
            n == self@.len(),
    {
        self.commands.len()
    }

    /// A copy of this pipeline.
    pub fn duplicate(&self) -> (copy: Pipeline)
        ensures
            copy@ == self@,
    {
        let mut copy = Pipeline { commands: Vec::with_capacity(self.commands.len()) };
        let mut i: usize = 0;
        while i < self.commands.len()
            invariant
                i <= self.commands.len(),
                copy.commands.len() == i,
                forall|j: int| 0 <= j < i ==> copy.commands@[j]@ == self.commands@[j]@,
            decreases self.commands.len() - i,
        {
            copy.commands.push(self.commands[i].duplicate());
            i += 1;
        }
        copy
    }

    /// The command at `idx`.
    pub fn command_at(&self, idx: usize) -> (command: &Cmd)
        requires
            idx < self@.len(),
        ensures
            command@ == self@[idx as int],
    {
        &self.commands[idx]
    }
}

/// The decimal numeral of `n` in ASCII digits.
pub open spec fn decimal_bytes(n: nat) -> Seq<u8>
    decreases n,
{
    if n < 10 {
        seq![(48 + n) as u8]
    } else {
        decimal_bytes(n / 10).push((48 + n % 10) as u8)
    }
}

/// One argument as it goes over the wire: `$`, its length, a line break,
/// its bytes, a line break.
pub open spec fn packed_arg(arg: Seq<u8>) -> Seq<u8> {
    seq![0x24u8] + decimal_bytes(arg.len()) + seq![13u8, 10u8] + arg + seq![13u8, 10u8]
}

/// The first `upto` arguments as they go over the wire.
pub open spec fn packed_args(args: Seq<Seq<u8>>, upto: int) -> Seq<u8>
    decreases upto,
{
    if upto <= 0 {
        Seq::empty()
    } else {
        packed_args(args, upto - 1) + packed_arg(args[upto - 1])
    }
}

/// A command as it goes over the wire: `*`, the number of arguments, a
/// line break, and the arguments.
pub open spec fn packed(args: Seq<Seq<u8>>) -> Seq<u8> {
    seq![0x2au8] + decimal_bytes(args.len()) + seq![13u8, 10u8] + packed_args(
        args,
        args.len() as int,
    )
}

fn push_decimal_bytes(out: &mut Vec<u8>, n: usize)
    ensures
        final(out)@ == old(out)@ + decimal_bytes(n as nat),
    decreases n,
{
    if n >= 10 {
        push_decimal_bytes(out, n / 10);
    }
    out.push(48 + (n % 10) as u8);
}

fn push_bytes(out: &mut Vec<u8>, bytes: &[u8])
    ensures
        final(out)@ == old(out)@ + bytes@,
{
    let mut i: usize = 0;
    while i < bytes.len()
        invariant
            i <= bytes.len(),
            out@ == old(out)@ + bytes@.subrange(0, i as int),
        decreases bytes.len() - i,
    {
        out.push(bytes[i]);
        i += 1;
    }
}

impl Cmd {
    /// Appends the command to `out` as it goes over the wire.
    pub fn write_packed_command(&self, out: &mut Vec<u8>)
        ensures
            final(out)@ == old(out)@ + packed(self@),
    {
        out.push(0x2a);
        push_decimal_bytes(out, self.args.len());
        out.push(13);
        out.push(10);
        let ghost head = out@;
        let mut i: usize = 0;
        while i < self.args.len()
            invariant
                i <= self.args.len() == self@.len(),
                out@ == head + packed_args(self@, i as int),
            decreases self.args.len() - i,
        {
            let arg = self.args[i].as_slice();
            out.push(0x24);
            push_decimal_bytes(out, arg.len());
            out.push(13);
            out.push(10);
            push_bytes(out, arg);
            out.push(13);
            out.push(10);
            i += 1;
        }
    }

    /// The command as it goes over the wire.
    pub fn get_packed_command(&self) -> (out: Vec<u8>)
        ensures
            out@ == packed(self@),
    {
        let mut out: Vec<u8> = Vec::new();
        self.write_packed_command(&mut out);
        out
    }
}

} // verus!
