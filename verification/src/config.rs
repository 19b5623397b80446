//! The immutable description of one supervisable unit: its command line,
//! replication, restart policy, stop policy and redirections, together with
//! the validation rules a loaded description must pass.

use vstd::prelude::*;

verus! {

/// Restart policy applied when a supervised process exits on its own.
#[derive(Clone, Copy, Debug, PartialEq, Eq, Structural)]
pub enum AutoRestart {
    True,
    False,
    Unexpected,
}

/// The signal sent to a child process when a graceful stop is requested.
#[derive(Debug)]
pub enum StopSignal {
    TERM,
    HUP,
    INT,
    QUIT,
    KILL,
    USR1,
    USR2,
    OTHER(String),
}

impl Clone for StopSignal {
    fn clone(&self) -> (r: Self)
        ensures
            r == *self,
    {
        match self {
            StopSignal::TERM => StopSignal::TERM,
            StopSignal::HUP => StopSignal::HUP,
            StopSignal::INT => StopSignal::INT,
            StopSignal::QUIT => StopSignal::QUIT,
            StopSignal::KILL => StopSignal::KILL,
            StopSignal::USR1 => StopSignal::USR1,
            StopSignal::USR2 => StopSignal::USR2,
            StopSignal::OTHER(name) => StopSignal::OTHER(name.clone()),
        }
    }
}

impl StopSignal {
    /// The conventional name of the signal.
    pub open spec fn spec_name(&self) -> Seq<char> {
        match self {
            StopSignal::TERM => "TERM"@,
            StopSignal::HUP => "HUP"@,
            StopSignal::INT => "INT"@,
            StopSignal::QUIT => "QUIT"@,
            StopSignal::KILL => "KILL"@,
            StopSignal::USR1 => "USR1"@,
            StopSignal::USR2 => "USR2"@,
            StopSignal::OTHER(custom) => custom@,
        }
    }

    /// The signal's name as text.
    pub fn name(&self) -> (r: String)
        ensures
            r@ == self.spec_name(),
    {
        match self {
            StopSignal::TERM => String::from_str("TERM"),
            StopSignal::HUP => String::from_str("HUP"),
            StopSignal::INT => String::from_str("INT"),
            StopSignal::QUIT => String::from_str("QUIT"),
            StopSignal::KILL => String::from_str("KILL"),
            StopSignal::USR1 => String::from_str("USR1"),
            StopSignal::USR2 => String::from_str("USR2"),
            StopSignal::OTHER(custom) => custom.clone(),
        }
    }
}

/// The description of one named supervisable unit, immutable once loaded.
#[derive(Debug)]
pub struct Configuration {
    /// Command line, program first, then its arguments, space-separated.
    pub cmd: String,
    /// How many parallel replicas to supervise.
    pub num_procs: u32,
    /// File-creation mask installed for the child, a subset of `0o777`.
    pub umask: u32,
    /// Working directory of the child, if one is imposed.
    pub working_dir: Option<String>,
    /// Whether a start is issued as soon as the supervisor comes up.
    pub auto_start: bool,
    /// Restart policy applied to self-initiated exits.
    pub auto_restart: AutoRestart,
    /// Exit codes considered an expected ending.
    pub exit_codes: Vec<i32>,
    /// How many failed start attempts are retried before giving up.
    pub start_retries: u32,
    /// Seconds a child must stay alive for a start to count as successful.
    pub start_time: u64,
    /// Signal sent on a graceful stop.
    pub stop_signal: StopSignal,
    /// Seconds granted after the stop signal before a forceful kill.
    pub stop_time: u32,
    /// Redirection target of the child's stdout; absent means discard.
    pub stdout: Option<String>,
    /// Redirection target of the child's stderr; absent means discard.
    pub stderr: Option<String>,
    /// Environment overrides handed to the child.
    pub env: Vec<(String, String)>,
}

/// Whether two optional strings hold the same text.
pub open spec fn opt_text_eq(a: Option<String>, b: Option<String>) -> bool {
    match (a, b) {
        (Option::None, Option::None) => true,
        (Option::Some(x), Option::Some(y)) => x@ == y@,
        _ => false,
    }
}

impl Configuration {
    /// Whether `other` describes the same unit, field for field.
    pub open spec fn agrees(&self, other: &Configuration) -> bool {
        &&& self.cmd@ == other.cmd@
        &&& self.num_procs == other.num_procs
        &&& self.umask == other.umask
        &&& opt_text_eq(self.working_dir, other.working_dir)
        &&& self.auto_start == other.auto_start
        &&& self.auto_restart == other.auto_restart
        &&& self.exit_codes@ == other.exit_codes@
        &&& self.start_retries == other.start_retries
        &&& self.start_time == other.start_time
        &&& self.stop_signal.spec_name() == other.stop_signal.spec_name()
        &&& self.stop_time == other.stop_time
        &&& opt_text_eq(self.stdout, other.stdout)
        &&& opt_text_eq(self.stderr, other.stderr)
        &&& self.env@ == other.env@
    }

    /// Whether `other` would spawn the same OS process: the fields that are
    /// handed to the spawn call hold the same text.
    pub open spec fn same_program(&self, other: &Configuration) -> bool {
        &&& self.cmd@ == other.cmd@
        &&& self.umask == other.umask
        &&& opt_text_eq(self.working_dir, other.working_dir)
        &&& opt_text_eq(self.stdout, other.stdout)
        &&& opt_text_eq(self.stderr, other.stderr)
        &&& env_texts_eq(self.env@, other.env@)
    }

    /// Decides whether `other` would spawn the same OS process.
    pub fn spawns_same_program(&self, other: &Configuration) -> (r: bool)
        ensures
            r == self.same_program(other),
    {
        self.cmd == other.cmd && self.umask == other.umask && opt_str_equal(
            &self.working_dir,
            &other.working_dir,
        ) && opt_str_equal(&self.stdout, &other.stdout) && opt_str_equal(
            &self.stderr,
            &other.stderr,
        ) && env_texts_equal(&self.env, &other.env)
    }
}

/// Whether two environment override lists hold the same pairs of text, in
/// the same order.
pub open spec fn env_texts_eq(a: Seq<(String, String)>, b: Seq<(String, String)>) -> bool {
    &&& a.len() == b.len()
    &&& forall|i: int| 0 <= i < a.len() ==> (#[trigger] a[i]).0@ == b[i].0@ && a[i].1@ == b[i].1@
}

/// Decides whether two optional strings hold the same text.
pub fn opt_str_equal(a: &Option<String>, b: &Option<String>) -> (r: bool)
    ensures
        r == opt_text_eq(*a, *b),
{
    match (a, b) {
        (Option::None, Option::None) => true,
        (Option::Some(x), Option::Some(y)) => crate::text::str_equal(x.as_str(), y.as_str()),
        _ => false,
    }
}

/// Decides whether two environment override lists hold the same pairs of
/// text, in the same order.
pub fn env_texts_equal(a: &Vec<(String, String)>, b: &Vec<(String, String)>) -> (r: bool)
    ensures
        r == env_texts_eq(a@, b@),
{
    if a.len() != b.len() {
        return false;
    }
    let mut i: usize = 0;
    while i < a.len()
        invariant
            a@.len() == b@.len(),
            i <= a@.len(),
            forall|j: int| 0 <= j < i ==> (#[trigger] a@[j]).0@ == b@[j].0@ && a@[j].1@ == b@[j].1@,
        decreases a@.len() - i,
    {
        if !(a[i].0 == b[i].0) || !(a[i].1 == b[i].1) {
            return false;
        }
        i = i + 1;
    }
    true
}

impl Clone for Configuration {
    fn clone(&self) -> (r: Self)
        ensures
            r.agrees(self),
    {
        let mut env: Vec<(String, String)> = Vec::new();
        let mut i: usize = 0;
        while i < self.env.len()
            invariant
                i <= self.env.len(),
                env@.len() == i as nat,
                forall|k: int| 0 <= k < i ==> env@[k] == self.env@[k],
            decreases self.env.len() - i,
        {
            let pair = (self.env[i].0.clone(), self.env[i].1.clone());
            env.push(pair);
            i = i + 1;
        }
        proof {
            assert(env@ =~= self.env@);
        }
        let mut exit_codes: Vec<i32> = Vec::new();
        let mut j: usize = 0;
        while j < self.exit_codes.len()
            invariant
                j <= self.exit_codes.len(),
                exit_codes@ == self.exit_codes@.take(j as int),
            decreases self.exit_codes.len() - j,
        {
            exit_codes.push(self.exit_codes[j]);
            proof {
                assert(exit_codes@ =~= self.exit_codes@.take(j as int + 1));
            }
            j = j + 1;
        }
        proof {
            assert(self.exit_codes@.take(self.exit_codes@.len() as int) =~= self.exit_codes@);
        }
        Configuration {
            cmd: self.cmd.clone(),
            num_procs: self.num_procs,
            umask: self.umask,
            working_dir: match &self.working_dir {
                Option::Some(d) => Option::Some(d.clone()),
                Option::None => Option::None,
            },
            auto_start: self.auto_start,
            auto_restart: self.auto_restart,
            exit_codes,
            start_retries: self.start_retries,
            start_time: self.start_time,
            stop_signal: self.stop_signal.clone(),
            stop_time: self.stop_time,
            stdout: match &self.stdout {
                Option::Some(p) => Option::Some(p.clone()),
                Option::None => Option::None,
            },
            stderr: match &self.stderr {
                Option::Some(p) => Option::Some(p.clone()),
                Option::None => Option::None,
            },
            env,
        }
    }
}

impl Default for Configuration {
    /// The values a loaded description starts from when a field is omitted.
    fn default() -> (r: Self)
        ensures
            r.cmd@ == Seq::<char>::empty(),
            r.num_procs == 1,
            r.umask == 0o022,
            r.working_dir is None,
            r.auto_start == true,
            r.auto_restart == AutoRestart::Unexpected,
            r.exit_codes@ == seq![0i32],
            r.start_retries == 3,
            r.start_time == 1,
            r.stop_signal is TERM,
            r.stop_time == 10,
            r.stdout is None,
            r.stderr is None,
            r.env@ == Seq::<(String, String)>::empty(),
    {
        let mut exit_codes: Vec<i32> = Vec::new();
        exit_codes.push(0);
        proof {
            assert(exit_codes@ =~= seq![0i32]);
        }
        Configuration {
            cmd: String::new(),
            num_procs: 1,
            umask: 0o022,
            working_dir: Option::None,
            auto_start: true,
            auto_restart: AutoRestart::Unexpected,
            exit_codes,
            start_retries: 3,
            start_time: 1,
            stop_signal: StopSignal::TERM,
            stop_time: 10,
            stdout: Option::None,
            stderr: Option::None,
            env: Vec::new(),
        }
    }
}

/// Whether a file-creation mask only holds permission bits, i.e. is a
/// subset of `0o777`.
pub open spec fn spec_valid_umask(value: u32) -> bool {
    value & 0o777 == value
}

/// Checks that a file-creation mask only holds permission bits.
pub fn validate_umask(value: u32) -> (r: bool)
    ensures
        r == spec_valid_umask(value),
{
    value & 0o777 == value
}

impl Configuration {
    /// Whether the description passes every validation rule.
    pub open spec fn spec_valid(&self) -> bool {
        &&& self.cmd@.len() > 0
        &&& self.num_procs >= 1
        &&& spec_valid_umask(self.umask)
    }

    /// The message of the first validation rule the description breaks,
    /// checked in field order: command, replica count, mask.
    pub open spec fn spec_first_error(&self) -> Seq<char> {
        if self.cmd@.len() == 0 {
            "cmd: can't be empty"@
        } else if self.num_procs < 1 {
            "range"@
        } else {
            "Invalid umask"@
        }
    }

    /// Validates the description, returning the message of the first broken
    /// rule.
    pub fn validate(&self) -> (r: Option<String>)
        ensures
            r is None <==> self.spec_valid(),
            r matches Some(msg) ==> msg@ == self.spec_first_error(),
    {
        if self.cmd.as_str().is_empty() {
            Option::Some(String::from_str("cmd: can't be empty"))
        } else if self.num_procs < 1 {
            Option::Some(String::from_str("range"))
        } else if !validate_umask(self.umask) {
            Option::Some(String::from_str("Invalid umask"))
        } else {
            Option::None
        }
    }
}

/// The text reported when the unit named `name` fails validation with
/// message `msg`: the name, a colon, and the message in double quotes.
pub open spec fn named_error_text(name: Seq<char>, msg: Seq<char>) -> Seq<char> {
    name + ": \""@ + msg + "\""@
}

/// Validates a whole loaded set of descriptions. Either every entry passes,
/// or the result identifies the first failing entry by name together with
/// the first rule it breaks.
pub fn validate_configurations(tasks: &Vec<(String, Configuration)>) -> (r: Option<String>)
    ensures
        r is None <==> (forall|i: int| 0 <= i < tasks@.len() ==> (#[trigger] tasks@[i].1).spec_valid()),
        r matches Some(msg) ==> (exists|i: int|
            {
                &&& 0 <= i < tasks@.len()
                &&& !(#[trigger] tasks@[i].1).spec_valid()
                &&& (forall|j: int| 0 <= j < i ==> (#[trigger] tasks@[j].1).spec_valid())
                &&& msg@ == named_error_text(tasks@[i].0@, tasks@[i].1.spec_first_error())
            }),
{
    let mut i: usize = 0;
    while i < tasks.len()
        invariant
            i <= tasks.len(),
            forall|j: int| 0 <= j < i ==> (#[trigger] tasks@[j].1).spec_valid(),
        decreases tasks.len() - i,
    {
        match tasks[i].1.validate() {
            Option::Some(msg) => {
                let mut text = tasks[i].0.clone();
                text.append(": \"");
                text.append(msg.as_str());
                text.append("\"");
                proof {
                    assert(text@ =~= named_error_text(tasks@[i as int].0@,
                        tasks@[i as int].1.spec_first_error()));
                }
                return Option::Some(text);
            },
            Option::None => {},
        }
        i = i + 1;
    }
    Option::None
}

/// Whether `c` separates words of a command line.
pub open spec fn is_blank(c: char) -> bool {
    c == ' ' || c == '\t' || c == '\n' || c == '\r'
}

/// The length of the word at the front of `s`: the longest prefix without
/// a blank.
pub open spec fn word_len(s: Seq<char>) -> nat
    decreases s.len(),
{
    if s.len() == 0 || is_blank(s[0]) {
        0
    } else {
        1 + word_len(s.skip(1))
    }
}

/// The blank-separated words of `s`, in order.
pub open spec fn spec_words(s: Seq<char>) -> Seq<Seq<char>>
    decreases s.len(),
    via spec_words_decreases
{
    if s.len() == 0 {
        Seq::empty()
    } else if is_blank(s[0]) {
        spec_words(s.skip(1))
    } else {
        seq![s.take(word_len(s) as int)] + spec_words(s.skip(word_len(s) as int))
    }
}

#[via_fn]
proof fn spec_words_decreases(s: Seq<char>) {
    if s.len() > 0 && !is_blank(s[0]) {
        assert(word_len(s) == 1 + word_len(s.skip(1)));
        lemma_word_len_le(s);
    }
}

/// The word at the front of `s` never reaches past its end.
proof fn lemma_word_len_le(s: Seq<char>)
    ensures
        word_len(s) <= s.len(),
    decreases s.len(),
{
    if s.len() > 0 && !is_blank(s[0]) {
        lemma_word_len_le(s.skip(1));
    }
}

/// The word at the front of `s` is exactly its longest blank-free prefix.
proof fn lemma_word_len_eq(t: Seq<char>, m: int)
    requires
        0 <= m <= t.len(),
        forall|j: int| 0 <= j < m ==> !is_blank(#[trigger] t[j]),
        m == t.len() || is_blank(t[m]),
    ensures
        word_len(t) == m,
    decreases m,
{
    if m > 0 {
        assert(!is_blank(t[0]));
        lemma_word_len_eq(t.skip(1), m - 1);
    }
}

impl Configuration {
    /// Splits the command line into the program and its arguments, on
    /// blanks, as they will be handed to the spawn call.
    pub fn argv(&self) -> (r: Vec<String>)
        ensures
            r@.map_values(|w: String| w@) == spec_words(self.cmd@),
    {
        let s = self.cmd.as_str();
        let n = s.unicode_len();
        let mut r: Vec<String> = Vec::new();
        let mut i: usize = 0;
        proof {
            assert(s@.skip(0) =~= s@);
            assert(r@.map_values(|w: String| w@) + spec_words(s@) =~= spec_words(s@));
        }
        while i < n
            invariant
                i <= n,
                n as nat == s@.len(),
                s@ == self.cmd@,
                r@.map_values(|w: String| w@) + spec_words(s@.skip(i as int)) == spec_words(s@),
            decreases n - i,
        {
            let c = s.get_char(i);
            if c == ' ' || c == '\t' || c == '\n' || c == '\r' {
                proof {
                    assert(s@.skip(i as int)[0] == s@[i as int]);
                    assert(s@.skip(i as int).skip(1) =~= s@.skip(i as int + 1));
                }
                i = i + 1;
            } else {
                let ghost start = i as int;
                let mut w = String::new();
                proof {
                    assert(s@.subrange(start, start) =~= Seq::<char>::empty());
                }
                loop
                    invariant_except_break
                        0 <= start <= i <= n,
                        n as nat == s@.len(),
                        s@ == self.cmd@,
                        w@ == s@.subrange(start, i as int),
                        forall|j: int| start <= j < i ==> !is_blank(#[trigger] s@[j]),
                        start < s@.len() && !is_blank(s@[start]),
                    ensures
                        0 <= start <= i <= n,
                        n as nat == s@.len(),
                        w@ == s@.subrange(start, i as int),
                        forall|j: int| start <= j < i ==> !is_blank(#[trigger] s@[j]),
                        start < s@.len() && !is_blank(s@[start]),
                        i == n || is_blank(s@[i as int]),
                    decreases n - i,
                {
                    if i >= n {
                        break ;
                    }
                    let d = s.get_char(i);
                    if d == ' ' || d == '\t' || d == '\n' || d == '\r' {
                        break ;
                    }
                    w.push(d);
                    proof {
                        assert(w@ =~= s@.subrange(start, i as int + 1));
                    }
                    i = i + 1;
                }
                proof {
                    let t = s@.skip(start);
                    assert forall|j: int| 0 <= j < i - start implies !is_blank(#[trigger] t[j]) by {
                        assert(t[j] == s@[start + j]);
                    }
                    if i < n {
                        assert(t[i - start] == s@[i as int]);
                    }
                    lemma_word_len_eq(t, i - start);
                    assert(t.take(word_len(t) as int) =~= s@.subrange(start, i as int));
                    assert(t.skip(word_len(t) as int) =~= s@.skip(i as int));
                    assert(spec_words(t) == seq![w@] + spec_words(s@.skip(i as int)));
                }
                let ghost before = r@;
                r.push(w);
                proof {
                    assert(r@.map_values(|w2: String| w2@) =~= before.map_values(
                        |w2: String| w2@,
                    ).push(s@.subrange(start, i as int)));
                    assert(r@.map_values(|w2: String| w2@) + spec_words(s@.skip(i as int))
                        =~= spec_words(s@));
                }
            }
        }
        proof {
            assert(s@.skip(n as int) =~= Seq::<char>::empty());
            assert(r@.map_values(|w: String| w@) =~= spec_words(s@));
        }
        r
    }
}

/// The JSON rendering of an optional text: the quoted text, or `null`.
pub open spec fn json_opt_text(o: Option<String>) -> Seq<char> {
    match o {
        Option::Some(s) => crate::text::quoted_text(s@),
        Option::None => "null"@,
    }
}

/// The JSON rendering of a list of exit codes.
pub open spec fn json_codes(codes: Seq<i32>) -> Seq<char>
    decreases codes.len(),
{
    if codes.len() == 0 {
        Seq::empty()
    } else if codes.len() == 1 {
        crate::text::signed_text(codes.last() as int)
    } else {
        json_codes(codes.drop_last()) + ","@ + crate::text::signed_text(codes.last() as int)
    }
}

/// The JSON rendering of the environment overrides, as an object.
pub open spec fn json_env(env: Seq<(String, String)>) -> Seq<char>
    decreases env.len(),
{
    if env.len() == 0 {
        Seq::empty()
    } else if env.len() == 1 {
        crate::text::quoted_text(env.last().0@) + ":"@ + crate::text::quoted_text(env.last().1@)
    } else {
        json_env(env.drop_last()) + ","@ + crate::text::quoted_text(env.last().0@) + ":"@
            + crate::text::quoted_text(env.last().1@)
    }
}

/// The text a restart policy is written as.
pub open spec fn policy_text(p: AutoRestart) -> Seq<char> {
    match p {
        AutoRestart::True => "true"@,
        AutoRestart::False => "false"@,
        AutoRestart::Unexpected => "unexpected"@,
    }
}

impl Configuration {
    /// The JSON rendering of the whole description, one object with one
    /// member per field, in field order.
    pub open spec fn spec_json(&self) -> Seq<char> {
        "{\"cmd\":"@ + crate::text::quoted_text(self.cmd@) + ",\"num_procs\":"@
            + crate::text::decimal_digits(self.num_procs as nat) + ",\"umask\":"@
            + crate::text::decimal_digits(self.umask as nat) + ",\"working_dir\":"@
            + json_opt_text(self.working_dir) + ",\"auto_start\":"@ + (if self.auto_start {
            "true"@
        } else {
            "false"@
        }) + ",\"auto_restart\":\""@ + policy_text(self.auto_restart) + "\",\"exit_codes\":["@
            + json_codes(self.exit_codes@) + "],\"start_retries\":"@
            + crate::text::decimal_digits(self.start_retries as nat) + ",\"start_time\":"@
            + crate::text::decimal_digits(self.start_time as nat) + ",\"stop_signal\":"@
            + crate::text::quoted_text(self.stop_signal.spec_name()) + ",\"stop_time\":"@
            + crate::text::decimal_digits(self.stop_time as nat) + ",\"stdout\":"@
            + json_opt_text(self.stdout) + ",\"stderr\":"@ + json_opt_text(self.stderr)
            + ",\"env\":{"@ + json_env(self.env@) + "}}"@
    }

    /// Renders the description as JSON.
    pub fn to_json(&self) -> (r: String)
        ensures
            r@ == self.spec_json(),
    {
        let mut out = String::new();
        out.append("{\"cmd\":");
        crate::text::append_quoted(&mut out, self.cmd.as_str());
        out.append(",\"num_procs\":");
        crate::text::append_decimal(&mut out, self.num_procs as u64);
        out.append(",\"umask\":");
        crate::text::append_decimal(&mut out, self.umask as u64);
        out.append(",\"working_dir\":");
        match &self.working_dir {
            Option::Some(d) => crate::text::append_quoted(&mut out, d.as_str()),
            Option::None => out.append("null"),
        }
        out.append(",\"auto_start\":");
        if self.auto_start {
            out.append("true");
        } else {
            out.append("false");
        }
        out.append(",\"auto_restart\":\"");
        match self.auto_restart {
            AutoRestart::True => out.append("true"),
            AutoRestart::False => out.append("false"),
            AutoRestart::Unexpected => out.append("unexpected"),
        }
        out.append("\",\"exit_codes\":[");
        let ghost before_codes = out@;
        let mut i: usize = 0;
        while i < self.exit_codes.len()
            invariant
                i <= self.exit_codes.len(),
                out@ == before_codes + json_codes(self.exit_codes@.take(i as int)),
            decreases self.exit_codes.len() - i,
        {
            if i > 0 {
                out.append(",");
            }
            crate::text::append_signed(&mut out, self.exit_codes[i]);
            proof {
                assert(self.exit_codes@.take(i as int + 1).drop_last() =~= self.exit_codes@.take(
                    i as int,
                ));
                assert(self.exit_codes@.take(i as int + 1).last() == self.exit_codes@[i as int]);
                assert(out@ =~= before_codes + json_codes(self.exit_codes@.take(i as int + 1)));
            }
            i = i + 1;
        }
        proof {
            assert(self.exit_codes@.take(self.exit_codes@.len() as int) =~= self.exit_codes@);
        }
        out.append("],\"start_retries\":");
        crate::text::append_decimal(&mut out, self.start_retries as u64);
        out.append(",\"start_time\":");
        crate::text::append_decimal(&mut out, self.start_time);
        out.append(",\"stop_signal\":");
        let sig = self.stop_signal.name();
        crate::text::append_quoted(&mut out, sig.as_str());
        out.append(",\"stop_time\":");
        crate::text::append_decimal(&mut out, self.stop_time as u64);
        out.append(",\"stdout\":");
        match &self.stdout {
            Option::Some(p) => crate::text::append_quoted(&mut out, p.as_str()),
            Option::None => out.append("null"),
        }
        out.append(",\"stderr\":");
        match &self.stderr {
            Option::Some(p) => crate::text::append_quoted(&mut out, p.as_str()),
            Option::None => out.append("null"),
        }
        out.append(",\"env\":{");
        let ghost before_env = out@;
        let mut j: usize = 0;
        while j < self.env.len()
            invariant
                j <= self.env.len(),
                out@ == before_env + json_env(self.env@.take(j as int)),
            decreases self.env.len() - j,
        {
            if j > 0 {
                out.append(",");
            }
            crate::text::append_quoted(&mut out, self.env[j].0.as_str());
            out.append(":");
            crate::text::append_quoted(&mut out, self.env[j].1.as_str());
            proof {
                assert(self.env@.take(j as int + 1).drop_last() =~= self.env@.take(j as int));
                assert(self.env@.take(j as int + 1).last() == self.env@[j as int]);
                assert(out@ =~= before_env + json_env(self.env@.take(j as int + 1)));
            }
            j = j + 1;
        }
        proof {
            assert(self.env@.take(self.env@.len() as int) =~= self.env@);
        }
        out.append("}}");
        proof {
            assert(out@ =~= self.spec_json());
        }
        out
    }
}

/// All characters of `s` are octal digits.
pub open spec fn all_octal_digits(s: Seq<char>) -> bool {
    forall|i: int| 0 <= i < s.len() ==> '0' <= #[trigger] s[i] && s[i] <= '7'
}

/// The value of `s` read as an octal numeral.
pub open spec fn octal_value(s: Seq<char>) -> nat
    decreases s.len(),
{
    if s.len() == 0 {
        0
    } else {
        octal_value(s.drop_last()) * 8 + (s.last() as u8 - 48) as nat
    }
}

/// Reads a file-creation mask written as an octal numeral. Returns the value
/// exactly when the text is a non-empty string of octal digits whose value
/// fits the result type.
pub fn parse_octal_u32(s: &str) -> (r: Option<u32>)
    ensures
        r is Some <==> s@.len() > 0 && all_octal_digits(s@) && octal_value(s@) <= u32::MAX,
        r matches Some(v) ==> v == octal_value(s@),
{
    if !s.is_ascii() {
        // a non-ASCII character is never an octal digit
        assert(!all_octal_digits(s@) || s@.len() == 0) by {
            if s@.len() > 0 && all_octal_digits(s@) {
                assert(forall|i: int| 0 <= i < s@.len() ==> (#[trigger] s@[i]) as u32 <= 55);
            }
        }
        return Option::None;
    }
    let n = s.unicode_len();
    if n == 0 {
        return Option::None;
    }
    let mut acc: u64 = 0;
    let mut i: usize = 0;
    while i < n
        invariant
            i <= n,
            n as nat == s@.len(),
            s.is_ascii(),
            all_octal_digits(s@.take(i as int)),
            acc == octal_value(s@.take(i as int)),
            acc <= u32::MAX,
        decreases n - i,
    {
        let b = s.get_ascii(i);
        if b < 48 || b > 55 {
            assert(!all_octal_digits(s@)) by {
                assert(s@[i as int] == b as char);
            }
            return Option::None;
        }
        let d: u64 = (b - 48) as u64;
        let next: u64 = acc * 8 + d;
        proof {
            assert(s@.take(i as int + 1).drop_last() =~= s@.take(i as int));
            assert(s@.take(i as int + 1).last() == s@[i as int]);
            assert(s@[i as int] == b as char);
            assert(next == octal_value(s@.take(i as int + 1)));
        }
        if next > 0xffff_ffff {
            proof {
                lemma_octal_prefix_bound(s@, i as int + 1);
            }
            return Option::None;
        }
        acc = next;
        i = i + 1;
    }
    proof {
        assert(s@.take(n as int) =~= s@);
    }
    Option::Some(acc as u32)
}

/// Appending octal digits never shrinks the value: the whole numeral is at
/// least its every prefix.
proof fn lemma_octal_prefix_bound(s: Seq<char>, k: int)
    requires
        0 <= k <= s.len(),
    ensures
        octal_value(s) >= octal_value(s.take(k)),
    decreases s.len() - k,
{
    if k < s.len() {
        lemma_octal_prefix_bound(s, k + 1);
        assert(s.take(k + 1).drop_last() =~= s.take(k));
        assert(octal_value(s.take(k + 1)) >= octal_value(s.take(k)) * 8);
    } else {
        assert(s.take(k) =~= s);
    }
}

} // verus!
