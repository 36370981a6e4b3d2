use vstd::prelude::*;
use vstd::utf8::is_ascii_chars;

verus! {

/// What to do when a replica that reached the running state exits.
#[derive(Debug, PartialEq, Eq, Structural, Clone, Copy)]
pub enum Autorestart {
    Always,
    Unexpected,
    Never,
}

/// The POSIX signals a task may name as its graceful stop signal.
#[derive(Debug, PartialEq, Eq, Structural, Clone, Copy)]
pub enum Sigtype {
    HUP,
    INT,
    QUIT,
    ILL,
    TRAP,
    ABRT,
    BUS,
    FPE,
    KILL,
    USR1,
    SEGV,
    USR2,
    PIPE,
    ALRM,
    TERM,
    STKFLT,
    CHLD,
    CONT,
    STOP,
    TSTP,
    TTIN,
    TTOU,
    URG,
    XCPU,
    XFSZ,
    VTALRM,
    PROF,
    WINCH,
    POLL,
    PWR,
    SYS,
}

/// The signal number of each signal.
pub open spec fn sig_code(s: Sigtype) -> i32 {
    match s {
        Sigtype::HUP => 1,
        Sigtype::INT => 2,
        Sigtype::QUIT => 3,
        Sigtype::ILL => 4,
        Sigtype::TRAP => 5,
        Sigtype::ABRT => 6,
        Sigtype::BUS => 7,
        Sigtype::FPE => 8,
        Sigtype::KILL => 9,
        Sigtype::USR1 => 10,
        Sigtype::SEGV => 11,
        Sigtype::USR2 => 12,
        Sigtype::PIPE => 13,
        Sigtype::ALRM => 14,
        Sigtype::TERM => 15,
        Sigtype::STKFLT => 16,
        Sigtype::CHLD => 17,
        Sigtype::CONT => 18,
        Sigtype::STOP => 19,
        Sigtype::TSTP => 20,
        Sigtype::TTIN => 21,
        Sigtype::TTOU => 22,
        Sigtype::URG => 23,
        Sigtype::XCPU => 24,
        Sigtype::XFSZ => 25,
        Sigtype::VTALRM => 26,
        Sigtype::PROF => 27,
        Sigtype::WINCH => 28,
        Sigtype::POLL => 29,
        Sigtype::PWR => 30,
        Sigtype::SYS => 31,
    }
}

/// The signal with number `c`; numbers outside the table stand for KILL.
pub open spec fn sig_of_code(c: i32) -> Sigtype {
    if c == 1 { Sigtype::HUP }
    else if c == 2 { Sigtype::INT }
    else if c == 3 { Sigtype::QUIT }
    else if c == 4 { Sigtype::ILL }
    else if c == 5 { Sigtype::TRAP }
    else if c == 6 { Sigtype::ABRT }
    else if c == 7 { Sigtype::BUS }
    else if c == 8 { Sigtype::FPE }
    else if c == 9 { Sigtype::KILL }
    else if c == 10 { Sigtype::USR1 }
    else if c == 11 { Sigtype::SEGV }
    else if c == 12 { Sigtype::USR2 }
    else if c == 13 { Sigtype::PIPE }
    else if c == 14 { Sigtype::ALRM }
    else if c == 15 { Sigtype::TERM }
    else if c == 16 { Sigtype::STKFLT }
    else if c == 17 { Sigtype::CHLD }
    else if c == 18 { Sigtype::CONT }
    else if c == 19 { Sigtype::STOP }
    else if c == 20 { Sigtype::TSTP }
    else if c == 21 { Sigtype::TTIN }
    else if c == 22 { Sigtype::TTOU }
    else if c == 23 { Sigtype::URG }
    else if c == 24 { Sigtype::XCPU }
    else if c == 25 { Sigtype::XFSZ }
    else if c == 26 { Sigtype::VTALRM }
    else if c == 27 { Sigtype::PROF }
    else if c == 28 { Sigtype::WINCH }
    else if c == 29 { Sigtype::POLL }
    else if c == 30 { Sigtype::PWR }
    else if c == 31 { Sigtype::SYS }
    else { Sigtype::KILL }
}

/// The name of each signal, without its `SIG` prefix.
pub open spec fn sig_name(s: Sigtype) -> Seq<char> {
    match s {
        Sigtype::HUP => "HUP"@,
        Sigtype::INT => "INT"@,
        Sigtype::QUIT => "QUIT"@,
        Sigtype::ILL => "ILL"@,
        Sigtype::TRAP => "TRAP"@,
        Sigtype::ABRT => "ABRT"@,
        Sigtype::BUS => "BUS"@,
        Sigtype::FPE => "FPE"@,
        Sigtype::KILL => "KILL"@,
        Sigtype::USR1 => "USR1"@,
        Sigtype::SEGV => "SEGV"@,
        Sigtype::USR2 => "USR2"@,
        Sigtype::PIPE => "PIPE"@,
        Sigtype::ALRM => "ALRM"@,
        Sigtype::TERM => "TERM"@,
        Sigtype::STKFLT => "STKFLT"@,
        Sigtype::CHLD => "CHLD"@,
        Sigtype::CONT => "CONT"@,
        Sigtype::STOP => "STOP"@,
        Sigtype::TSTP => "TSTP"@,
        Sigtype::TTIN => "TTIN"@,
        Sigtype::TTOU => "TTOU"@,
        Sigtype::URG => "URG"@,
        Sigtype::XCPU => "XCPU"@,
        Sigtype::XFSZ => "XFSZ"@,
        Sigtype::VTALRM => "VTALRM"@,
        Sigtype::PROF => "PROF"@,
        Sigtype::WINCH => "WINCH"@,
        Sigtype::POLL => "POLL"@,
        Sigtype::PWR => "PWR"@,
        Sigtype::SYS => "SYS"@,
    }
}

impl Sigtype {
    /// The signal number, as delivered to a child.
    pub fn code(&self) -> (r: i32)
        ensures
            r == sig_code(*self),
            1 <= r <= 31,
    {
        match self {
            Sigtype::HUP => 1,
            Sigtype::INT => 2,
            Sigtype::QUIT => 3,
            Sigtype::ILL => 4,
            Sigtype::TRAP => 5,
            Sigtype::ABRT => 6,
            Sigtype::BUS => 7,
            Sigtype::FPE => 8,
            Sigtype::KILL => 9,
            Sigtype::USR1 => 10,
            Sigtype::SEGV => 11,
            Sigtype::USR2 => 12,
            Sigtype::PIPE => 13,
            Sigtype::ALRM => 14,
            Sigtype::TERM => 15,
            Sigtype::STKFLT => 16,
            Sigtype::CHLD => 17,
            Sigtype::CONT => 18,
            Sigtype::STOP => 19,
            Sigtype::TSTP => 20,
            Sigtype::TTIN => 21,
            Sigtype::TTOU => 22,
            Sigtype::URG => 23,
            Sigtype::XCPU => 24,
            Sigtype::XFSZ => 25,
            Sigtype::VTALRM => 26,
            Sigtype::PROF => 27,
            Sigtype::WINCH => 28,
            Sigtype::POLL => 29,
            Sigtype::PWR => 30,
            Sigtype::SYS => 31,
        }
    }

    /// The signal's name without the `SIG` prefix ("TERM", "KILL", ...).
    pub fn name(&self) -> (r: &'static str)
        ensures
            r@ == sig_name(*self),
    {
        match self {
            Sigtype::HUP => "HUP",
            Sigtype::INT => "INT",
            Sigtype::QUIT => "QUIT",
            Sigtype::ILL => "ILL",
            Sigtype::TRAP => "TRAP",
            Sigtype::ABRT => "ABRT",
            Sigtype::BUS => "BUS",
            Sigtype::FPE => "FPE",
            Sigtype::KILL => "KILL",
            Sigtype::USR1 => "USR1",
            Sigtype::SEGV => "SEGV",
            Sigtype::USR2 => "USR2",
            Sigtype::PIPE => "PIPE",
            Sigtype::ALRM => "ALRM",
            Sigtype::TERM => "TERM",
            Sigtype::STKFLT => "STKFLT",
            Sigtype::CHLD => "CHLD",
            Sigtype::CONT => "CONT",
            Sigtype::STOP => "STOP",
            Sigtype::TSTP => "TSTP",
            Sigtype::TTIN => "TTIN",
            Sigtype::TTOU => "TTOU",
            Sigtype::URG => "URG",
            Sigtype::XCPU => "XCPU",
            Sigtype::XFSZ => "XFSZ",
            Sigtype::VTALRM => "VTALRM",
            Sigtype::PROF => "PROF",
            Sigtype::WINCH => "WINCH",
            Sigtype::POLL => "POLL",
            Sigtype::PWR => "PWR",
            Sigtype::SYS => "SYS",
        }
    }
}

impl From<i32> for Sigtype {
    fn from(value: i32) -> (r: Sigtype) {
        if value == 1 { Sigtype::HUP }
        else if value == 2 { Sigtype::INT }
        else if value == 3 { Sigtype::QUIT }
        else if value == 4 { Sigtype::ILL }
        else if value == 5 { Sigtype::TRAP }
        else if value == 6 { Sigtype::ABRT }
        else if value == 7 { Sigtype::BUS }
        else if value == 8 { Sigtype::FPE }
        else if value == 9 { Sigtype::KILL }
        else if value == 10 { Sigtype::USR1 }
        else if value == 11 { Sigtype::SEGV }
        else if value == 12 { Sigtype::USR2 }
        else if value == 13 { Sigtype::PIPE }
        else if value == 14 { Sigtype::ALRM }
        else if value == 15 { Sigtype::TERM }
        else if value == 16 { Sigtype::STKFLT }
        else if value == 17 { Sigtype::CHLD }
        else if value == 18 { Sigtype::CONT }
        else if value == 19 { Sigtype::STOP }
        else if value == 20 { Sigtype::TSTP }
        else if value == 21 { Sigtype::TTIN }
        else if value == 22 { Sigtype::TTOU }
        else if value == 23 { Sigtype::URG }
        else if value == 24 { Sigtype::XCPU }
        else if value == 25 { Sigtype::XFSZ }
        else if value == 26 { Sigtype::VTALRM }
        else if value == 27 { Sigtype::PROF }
        else if value == 28 { Sigtype::WINCH }
        else if value == 29 { Sigtype::POLL }
        else if value == 30 { Sigtype::PWR }
        else if value == 31 { Sigtype::SYS }
        else { Sigtype::KILL }
    }
}

impl vstd::std_specs::convert::FromSpecImpl<i32> for Sigtype {
    open spec fn obeys_from_spec() -> bool {
        true
    }

    open spec fn from_spec(v: i32) -> Sigtype {
        sig_of_code(v)
    }
}

/// Reading a signal's number back gives the same signal.
pub proof fn lemma_sig_code_round_trip(s: Sigtype)
    ensures
        sig_of_code(sig_code(s)) == s,
        1 <= sig_code(s) <= 31,
{
}


/// One task's configuration, as read from the configuration file.
pub struct Config {
    pub cmd: String,
    pub numprocs: u32,
    pub umask: u32,
    pub workingdir: String,
    pub autostart: bool,
    pub autorestart: Autorestart,
    pub exitcodes: Vec<i32>,
    pub startretries: u32,
    pub starttime: u32,
    pub stopsignal: Sigtype,
    pub stoptime: u32,
    pub stdout: Option<String>,
    pub stderr: Option<String>,
    pub env: Option<Vec<(String, String)>>,
}

pub fn default_numprocs() -> (r: u32)
    ensures
        r == 1,
{
    1
}

/// The default file-mode creation mask, octal 022.
pub fn default_umask() -> (r: u32)
    ensures
        r == 18,
{
    18
}

pub fn default_workingdir() -> (r: String)
    ensures
        r@ == "."@,
{
    ".".to_owned()
}

pub fn default_autostart() -> (r: bool)
    ensures
        r,
{
    true
}

pub fn default_exitcodes() -> (r: Vec<i32>)
    ensures
        r@ == seq![0i32],
{
    let mut v: Vec<i32> = Vec::new();
    v.push(0);
    v
}

pub fn default_autorestart() -> (r: Autorestart)
    ensures
        r == Autorestart::Unexpected,
{
    Autorestart::Unexpected
}

pub fn default_startretries() -> (r: u32)
    ensures
        r == 3,
{
    3
}

pub fn default_starttime() -> (r: u32)
    ensures
        r == 1,
{
    1
}

pub fn default_stopsignal() -> (r: Sigtype)
    ensures
        r == Sigtype::TERM,
{
    Sigtype::TERM
}

pub fn default_stoptime() -> (r: u32)
    ensures
        r == 10,
{
    10
}

pub open spec fn is_octal_digit(c: char) -> bool {
    '0' <= c && c <= '7'
}

/// The number that a string of octal digits denotes.
pub open spec fn octal_value(s: Seq<char>) -> nat
    decreases s.len(),
{
    if s.len() == 0 {
        0
    } else {
        octal_value(s.drop_last()) * 8 + ((s.last() as nat) - ('0' as nat)) as nat
    }
}

/// A umask as the configuration writes it: one or more octal digits whose value fits in 32 bits.
pub open spec fn valid_umask_text(s: Seq<char>) -> bool {
    &&& s.len() > 0
    &&& forall|i: int| 0 <= i < s.len() ==> is_octal_digit(#[trigger] s[i])
    &&& octal_value(s) <= u32::MAX
}

proof fn lemma_octal_prefix_grows(s: Seq<char>, j: int, k: int)
    requires
        0 <= j <= k <= s.len(),
        forall|i: int| 0 <= i < s.len() ==> is_octal_digit(#[trigger] s[i]),
    ensures
        octal_value(s.take(j)) <= octal_value(s.take(k)),
    decreases k - j,
{
    if j < k {
        lemma_octal_prefix_grows(s, j, k - 1);
        assert(s.take(k).drop_last() =~= s.take(k - 1));
    }
}

/// Parses a umask written in octal ("022"); `None` for anything else.
pub fn parse_umask(s: &str) -> (r: Option<u32>)
    ensures
        r is Some <==> valid_umask_text(s@),
        r is Some ==> r->0 == octal_value(s@),
{
    if !s.is_ascii() {
        proof {
            if valid_umask_text(s@) {
                assert(is_ascii_chars(s@));
            }
        }
        return None;
    }
    let b = s.as_bytes();
    proof {
        vstd::string::is_ascii_spec_bytes(s);
    }
    let n = b.len();
    if n == 0 {
        return None;
    }
    let mut acc: u64 = 0;
    let mut i: usize = 0;
    while i < n
        invariant
            n == b@.len(),
            n == s@.len(),
            forall|j: int| 0 <= j < n ==> b@[j] == s@[j] as u8,
            is_ascii_chars(s@),
            0 <= i <= n,
            forall|j: int| 0 <= j < i ==> is_octal_digit(#[trigger] s@[j]),
            acc == octal_value(s@.take(i as int)),
            acc <= u32::MAX,
        decreases n - i,
    {
        let d = b[i];
        if d < 48 || d > 55 {
            assert(!is_octal_digit(s@[i as int]));
            return None;
        }
        assert(s@.take(i + 1).drop_last() =~= s@.take(i as int));
        let next = acc * 8 + (d - 48) as u64;
        if next > 4294967295 {
            proof {
                let k: int = i as int + 1;
                let t = s@;
                if valid_umask_text(t) {
                    lemma_octal_prefix_grows(t, k, t.len() as int);
                    assert(t.take(t.len() as int) =~= t);
                }
            }
            return None;
        }
        acc = next;
        i = i + 1;
    }
    assert(s@.take(n as int) =~= s@);
    Some(acc as u32)
}


pub open spec fn opt_text(o: Option<String>) -> Option<Seq<char>> {
    match o {
        Some(t) => Some(t@),
        None => None,
    }
}

pub open spec fn pair_text(p: (String, String)) -> (Seq<char>, Seq<char>) {
    (p.0@, p.1@)
}

/// An environment as the set of its (name, value) pairs: order does not matter.
pub open spec fn env_set(e: Seq<(String, String)>) -> Set<(Seq<char>, Seq<char>)> {
    e.map_values(|p: (String, String)| pair_text(p)).to_set()
}

pub open spec fn opt_env(o: Option<Vec<(String, String)>>) -> Option<Set<(Seq<char>, Seq<char>)>> {
    match o {
        Some(e) => Some(env_set(e@)),
        None => None,
    }
}

/// Two configurations are the same when every field is: the exit codes and the
/// environment compared as sets.
pub open spec fn same_config(a: Config, b: Config) -> bool {
    &&& a.cmd@ == b.cmd@
    &&& a.numprocs == b.numprocs
    &&& a.umask == b.umask
    &&& a.workingdir@ == b.workingdir@
    &&& a.autostart == b.autostart
    &&& a.autorestart == b.autorestart
    &&& a.exitcodes@.to_set() == b.exitcodes@.to_set()
    &&& a.startretries == b.startretries
    &&& a.starttime == b.starttime
    &&& a.stopsignal == b.stopsignal
    &&& a.stoptime == b.stoptime
    &&& opt_text(a.stdout) == opt_text(b.stdout)
    &&& opt_text(a.stderr) == opt_text(b.stderr)
    &&& opt_env(a.env) == opt_env(b.env)
}

/// A configuration is the same as itself.
pub proof fn lemma_same_config_reflexive(a: Config)
    ensures
        same_config(a, a),
{
}

/// Whether `c` is among the codes `v`.
pub fn has_code(v: &Vec<i32>, c: i32) -> (r: bool)
    ensures
        r == v@.contains(c),
{
    let mut i: usize = 0;
    while i < v.len()
        invariant
            0 <= i <= v@.len(),
            forall|j: int| 0 <= j < i ==> v@[j] != c,
        decreases v@.len() - i,
    {
        if v[i] == c {
            return true;
        }
        i = i + 1;
    }
    false
}

fn codes_within(a: &Vec<i32>, b: &Vec<i32>) -> (r: bool)
    ensures
        r == (forall|x: i32| a@.contains(x) ==> b@.contains(x)),
{
    let mut i: usize = 0;
    while i < a.len()
        invariant
            0 <= i <= a@.len(),
            forall|j: int| 0 <= j < i ==> b@.contains(#[trigger] a@[j]),
        decreases a@.len() - i,
    {
        if !has_code(b, a[i]) {
            return false;
        }
        i = i + 1;
    }
    assert forall|x: i32| a@.contains(x) implies b@.contains(x) by {
        let j = choose|j: int| 0 <= j < a@.len() && a@[j] == x;
        assert(b@.contains(a@[j]));
    }
    true
}

fn same_codes(a: &Vec<i32>, b: &Vec<i32>) -> (r: bool)
    ensures
        r == (a@.to_set() == b@.to_set()),
{
    let ab = codes_within(a, b);
    let ba = codes_within(b, a);
    proof {
        if ab && ba {
            assert(a@.to_set() =~= b@.to_set());
        }
        if !ab {
            let x = choose|x: i32| a@.contains(x) && !b@.contains(x);
            assert(a@.to_set().contains(x));
        }
        if !ba {
            let x = choose|x: i32| b@.contains(x) && !a@.contains(x);
            assert(b@.to_set().contains(x));
        }
    }
    ab && ba
}

fn has_pair(v: &Vec<(String, String)>, k: &String, x: &String) -> (r: bool)
    ensures
        r == env_set(v@).contains((k@, x@)),
{
    let ghost m = v@.map_values(|p: (String, String)| pair_text(p));
    let mut i: usize = 0;
    while i < v.len()
        invariant
            0 <= i <= v@.len(),
            m == v@.map_values(|p: (String, String)| pair_text(p)),
            forall|j: int| 0 <= j < i ==> m[j] != (k@, x@),
        decreases v@.len() - i,
    {
        if v[i].0 == *k && v[i].1 == *x {
            assert(m[i as int] == (k@, x@));
            return true;
        }
        i = i + 1;
    }
    false
}

fn env_within(a: &Vec<(String, String)>, b: &Vec<(String, String)>) -> (r: bool)
    ensures
        r == env_set(a@).subset_of(env_set(b@)),
{
    let ghost m = a@.map_values(|p: (String, String)| pair_text(p));
    let mut i: usize = 0;
    while i < a.len()
        invariant
            0 <= i <= a@.len(),
            m == a@.map_values(|p: (String, String)| pair_text(p)),
            forall|j: int| 0 <= j < i ==> env_set(b@).contains(#[trigger] m[j]),
        decreases a@.len() - i,
    {
        if !has_pair(b, &a[i].0, &a[i].1) {
            assert(m[i as int] == pair_text(a@[i as int]));
            assert(m.contains(m[i as int]));
            return false;
        }
        i = i + 1;
    }
    assert forall|e| env_set(a@).contains(e) implies env_set(b@).contains(e) by {
        let j = choose|j: int| 0 <= j < m.len() && m[j] == e;
        assert(env_set(b@).contains(m[j]));
    }
    true
}

fn same_env(a: &Option<Vec<(String, String)>>, b: &Option<Vec<(String, String)>>) -> (r: bool)
    ensures
        r == (opt_env(*a) == opt_env(*b)),
{
    match (a, b) {
        (Some(x), Some(y)) => {
            let xy = env_within(x, y);
            let yx = env_within(y, x);
            proof {
                if xy && yx {
                    assert(env_set(x@) =~= env_set(y@));
                }
            }
            xy && yx
        },
        (None, None) => true,
        _ => false,
    }
}

fn same_text(a: &Option<String>, b: &Option<String>) -> (r: bool)
    ensures
        r == (opt_text(*a) == opt_text(*b)),
{
    match (a, b) {
        (Some(x), Some(y)) => *x == *y,
        (None, None) => true,
        _ => false,
    }
}

impl Config {
    /// Well-formed: no environment name appears twice, as in a map.
    pub open spec fn wf(&self) -> bool {
        match self.env {
            Some(e) => forall|a: int, b: int|
                0 <= a < e@.len() && 0 <= b < e@.len() && a != b ==> e@[a].0@ != e@[b].0@,
            None => true,
        }
    }

    /// Whether the configuration is well formed: its environment names are unique.
    pub fn has_unique_env_names(&self) -> (r: bool)
        ensures
            r == self.wf(),
    {
        match &self.env {
            None => true,
            Some(e) => {
                let mut a: usize = 0;
                while a < e.len()
                    invariant
                        self.env == Some(*e),
                        0 <= a <= e@.len(),
                        forall|x: int, y: int| 0 <= x < a && 0 <= y < e@.len() && x != y ==> e@[x].0@ != e@[y].0@,
                    decreases e@.len() - a,
                {
                    let mut b: usize = 0;
                    while b < e.len()
                        invariant
                            self.env == Some(*e),
                            0 <= a < e@.len(),
                            0 <= b <= e@.len(),
                            forall|x: int, y: int| 0 <= x < a && 0 <= y < e@.len() && x != y ==> e@[x].0@ != e@[y].0@,
                            forall|y: int| 0 <= y < b && y != a ==> e@[a as int].0@ != e@[y].0@,
                        decreases e@.len() - b,
                    {
                        if b != a && e[a].0 == e[b].0 {
                            assert(e@[a as int].0@ == e@[b as int].0@);
                            assert(!self.wf()) by {
                                let v = self.env->0;
                                assert(v@[a as int].0@ == v@[b as int].0@);
                            }
                            return false;
                        }
                        b = b + 1;
                    }
                    a = a + 1;
                }
                true
            },
        }
    }

    /// Whether two configurations are the same in every field; exit codes and
    /// environment compare as sets.
    pub fn same_as(&self, other: &Config) -> (r: bool)
        ensures
            r == same_config(*self, *other),
    {
        self.cmd == other.cmd
            && self.numprocs == other.numprocs
            && self.umask == other.umask
            && self.workingdir == other.workingdir
            && self.autostart == other.autostart
            && self.autorestart == other.autorestart
            && same_codes(&self.exitcodes, &other.exitcodes)
            && self.startretries == other.startretries
            && self.starttime == other.starttime
            && self.stopsignal == other.stopsignal
            && self.stoptime == other.stoptime
            && same_text(&self.stdout, &other.stdout)
            && same_text(&self.stderr, &other.stderr)
            && same_env(&self.env, &other.env)
    }
}

} // verus!
