//! Worker roles, their socket addresses and the tokens that name them.
use vstd::prelude::*;
use vstd::string::StrSliceExecFns;

use crate::error::GError;

verus! {

/// Number of worker roles.
pub const PROCESS_COUNT: usize = 4;

/// The role of one worker process.
#[derive(Debug, Clone, Copy, PartialEq, Eq, Hash, Structural)]
pub enum Process {
    HPE,
    GestureRecognition,
    HeadDetection,
    Camera,
}

/// The role that a connecting worker's identifying token names, if any.
pub open spec fn role_of_token(t: Seq<char>) -> Option<Process> {
    if t == seq!['h', 'p', 'e'] || t == seq!['d', 'i', 'r', 'e', 'c', 't', 'm', 'h', 'p'] {
        Some(Process::HPE)
    } else if t == seq!['g', 'e'] || t == seq!['g', 'e', 's', 't', 'u', 'r', 'e'] {
        Some(Process::GestureRecognition)
    } else if t == seq!['h', 'e', 'a', 'd'] {
        Some(Process::HeadDetection)
    } else if t == seq!['c', 'a', 'm'] {
        Some(Process::Camera)
    } else {
        None
    }
}

/// Position of a role in a table of all roles.
pub open spec fn role_index(p: Process) -> nat {
    match p {
        Process::HPE => 0,
        Process::GestureRecognition => 1,
        Process::HeadDetection => 2,
        Process::Camera => 3,
    }
}

/// The role at position `i` of a table of all roles.
pub open spec fn role_at(i: nat) -> Process {
    if i == 0 {
        Process::HPE
    } else if i == 1 {
        Process::GestureRecognition
    } else if i == 2 {
        Process::HeadDetection
    } else {
        Process::Camera
    }
}

fn chars_equal(s: &str, t: &str) -> (r: bool)
    ensures
        r == (s@ == t@),
{
    let n = s.unicode_len();
    if n != t.unicode_len() {
        return false;
    }
    let mut i: usize = 0;
    while i < n
        invariant
            n == s@.len(),
            n == t@.len(),
            i <= n,
            s@.subrange(0, i as int) == t@.subrange(0, i as int),
        decreases n - i,
    {
        if s.get_char(i) != t.get_char(i) {
            assert(s@[i as int] != t@[i as int]);
            return false;
        }
        assert(s@.subrange(0, i + 1) =~= s@.subrange(0, i as int).push(s@[i as int]));
        assert(t@.subrange(0, i + 1) =~= t@.subrange(0, i as int).push(t@[i as int]));
        i = i + 1;
    }
    assert(s@ =~= s@.subrange(0, n as int));
    assert(t@ =~= t@.subrange(0, n as int));
    true
}

impl Process {
    /// The local socket path on which this role's worker listens.
    pub fn addr(&self) -> (r: &'static str)
        ensures
            *self == Process::Camera ==> r@ == "/tmp/picam.sock"@,
            *self == Process::HPE ==> r@ == "/tmp/hpe.sock"@,
            *self == Process::HeadDetection ==> r@ == "/tmp/head.sock"@,
            *self == Process::GestureRecognition ==> r@ == "/tmp/gesture.sock"@,
    {
        match self {
            Process::Camera => "/tmp/picam.sock",
            Process::HPE => "/tmp/hpe.sock",
            Process::HeadDetection => "/tmp/head.sock",
            Process::GestureRecognition => "/tmp/gesture.sock",
        }
    }

    /// The short name of this role.
    pub fn name(&self) -> (r: &'static str)
        ensures
            *self == Process::HPE ==> r@ == "hpe"@,
            *self == Process::HeadDetection ==> r@ == "head"@,
            *self == Process::GestureRecognition ==> r@ == "gesture"@,
            *self == Process::Camera ==> r@ == "cam"@,
    {
        match self {
            Process::HPE => "hpe",
            Process::HeadDetection => "head",
            Process::GestureRecognition => "gesture",
            Process::Camera => "cam",
        }
    }

    /// The role that an identifying token names; an unknown token is a
    /// configuration error.
    pub fn from_token(token: &str) -> (r: Result<Process, GError>)
        ensures
            role_of_token(token@) matches Some(p) ==> r == Ok::<Process, GError>(p),
            role_of_token(token@) is None ==> r == Err::<Process, GError>(GError::ConfigError),
    {
        proof {
            reveal_strlit("hpe");
            reveal_strlit("directmhp");
            reveal_strlit("ge");
            reveal_strlit("gesture");
            reveal_strlit("head");
            reveal_strlit("cam");
        }
        if chars_equal(token, "hpe") || chars_equal(token, "directmhp") {
            assert("hpe"@ =~= seq!['h', 'p', 'e']);
            assert("directmhp"@ =~= seq!['d', 'i', 'r', 'e', 'c', 't', 'm', 'h', 'p']);
            Ok(Process::HPE)
        } else if chars_equal(token, "ge") || chars_equal(token, "gesture") {
            assert("hpe"@ =~= seq!['h', 'p', 'e']);
            assert("directmhp"@ =~= seq!['d', 'i', 'r', 'e', 'c', 't', 'm', 'h', 'p']);
            assert("ge"@ =~= seq!['g', 'e']);
            assert("gesture"@ =~= seq!['g', 'e', 's', 't', 'u', 'r', 'e']);
            Ok(Process::GestureRecognition)
        } else if chars_equal(token, "head") {
            assert("hpe"@ =~= seq!['h', 'p', 'e']);
            assert("directmhp"@ =~= seq!['d', 'i', 'r', 'e', 'c', 't', 'm', 'h', 'p']);
            assert("ge"@ =~= seq!['g', 'e']);
            assert("gesture"@ =~= seq!['g', 'e', 's', 't', 'u', 'r', 'e']);
            assert("head"@ =~= seq!['h', 'e', 'a', 'd']);
            Ok(Process::HeadDetection)
        } else if chars_equal(token, "cam") {
            assert("hpe"@ =~= seq!['h', 'p', 'e']);
            assert("directmhp"@ =~= seq!['d', 'i', 'r', 'e', 'c', 't', 'm', 'h', 'p']);
            assert("ge"@ =~= seq!['g', 'e']);
            assert("gesture"@ =~= seq!['g', 'e', 's', 't', 'u', 'r', 'e']);
            assert("head"@ =~= seq!['h', 'e', 'a', 'd']);
            assert("cam"@ =~= seq!['c', 'a', 'm']);
            Ok(Process::Camera)
        } else {
            assert("hpe"@ =~= seq!['h', 'p', 'e']);
            assert("directmhp"@ =~= seq!['d', 'i', 'r', 'e', 'c', 't', 'm', 'h', 'p']);
            assert("ge"@ =~= seq!['g', 'e']);
            assert("gesture"@ =~= seq!['g', 'e', 's', 't', 'u', 'r', 'e']);
            assert("head"@ =~= seq!['h', 'e', 'a', 'd']);
            assert("cam"@ =~= seq!['c', 'a', 'm']);
            Err(GError::ConfigError)
        }
    }

    /// The words sent to this role's worker right after it connects: the
    /// camera source gets both images' dimensions, the detectors nothing.
    pub fn handshake_words(&self, width1: u32, height1: u32, width2: u32, height2: u32) -> (r: Vec<
        u32,
    >)
        ensures
            *self == Process::Camera ==> r@ == seq![width1, height1, width2, height2],
            *self != Process::Camera ==> r@ == Seq::<u32>::empty(),
    {
        let mut out: Vec<u32> = Vec::new();
        if let Process::Camera = self {
            out.push(width1);
            out.push(height1);
            out.push(width2);
            out.push(height2);
            assert(out@ =~= seq![width1, height1, width2, height2]);
        }
        out
    }

    /// Position of this role in a table of all roles.
    pub fn index(&self) -> (r: usize)
        ensures
            r == role_index(*self),
            r < PROCESS_COUNT,
    {
        match self {
            Process::HPE => 0,
            Process::GestureRecognition => 1,
            Process::HeadDetection => 2,
            Process::Camera => 3,
        }
    }

    /// The role at position `i` of a table of all roles.
    pub fn at_index(i: usize) -> (r: Process)
        requires
            i < PROCESS_COUNT,
        ensures
            r == role_at(i as nat),
            role_index(r) == i,
    {
        if i == 0 {
            Process::HPE
        } else if i == 1 {
            Process::GestureRecognition
        } else if i == 2 {
            Process::HeadDetection
        } else {
            Process::Camera
        }
    }
}

} // verus!
