//! Runtime configuration and the small parsers it rests on.
//!
//! The environment and command line are read outside the library; what
//! arrives here are plain strings, and every decision made on them — shell
//! id derivation, flag parsing, duration parsing — is verified.

use vstd::prelude::*;

verus! {

use vstd::string::StringSliceAdditionalSpecFns;
use crate::constants::OutputFormat;
use crate::util::str_eq;

/// What the first positional argument selects.
#[allow(non_camel_case_types)]
#[derive(Debug, PartialEq, Eq, Structural, Clone, Copy)]
pub enum ArgsCommand {
    CONNECT,
    SETUP,
    VERSION,
    COMMAND,
    POPULATE,
    FORWARD_TCP,
}

/// The resolved configuration.  Durations are held in milliseconds.
#[derive(Debug)]
pub struct Args {
    pub version: String,
    pub already_connected: bool,
    pub use_ssl: bool,
    pub cmd: String,
    pub auto_reconnect: bool,
    pub server_url: String,
    pub api_url: String,
    pub keep_alive: u64,
    pub read_timeout: u64,
    pub read_timeout_sleep: u64,
    pub server_crt_path: Option<String>,
    pub shell_key_path: Option<String>,
    pub verify_crt: bool,
    pub command: ArgsCommand,
    pub shell_name: Option<String>,
    pub hoposhell_folder_path: String,
    pub default_cols: u16,
    pub default_rows: u16,
    pub verbose: bool,
    pub command_timeout: u64,
    pub extra_args: Vec<String>,
    pub format: OutputFormat,
}

/// What `Path::file_stem` extracts from a path, as a string.
pub uninterp spec fn file_stem_of(path: Seq<char>) -> Option<Seq<char>>;

/// Relies on std's `Path::file_stem`: the stem — the last path component
/// without its final extension — is a function of the path string alone.
#[verifier::external_body]
fn path_file_stem(path: &str) -> (r: Option<&str>)
    ensures
        r is Some <==> file_stem_of(path@) is Some,
        r is Some ==> r->0@ == file_stem_of(path@)->0,
{
    std::path::Path::new(path).file_stem().and_then(|s| s.to_str())
}

/// Everything of two configurations but their extra arguments agrees.
pub open spec fn same_but_extra_args(a: &Args, b: &Args) -> bool {
    &&& a.version == b.version
    &&& a.already_connected == b.already_connected
    &&& a.use_ssl == b.use_ssl
    &&& a.cmd == b.cmd
    &&& a.auto_reconnect == b.auto_reconnect
    &&& a.server_url == b.server_url
    &&& a.api_url == b.api_url
    &&& a.keep_alive == b.keep_alive
    &&& a.read_timeout == b.read_timeout
    &&& a.read_timeout_sleep == b.read_timeout_sleep
    &&& a.server_crt_path == b.server_crt_path
    &&& a.shell_key_path == b.shell_key_path
    &&& a.verify_crt == b.verify_crt
    &&& a.command == b.command
    &&& a.shell_name == b.shell_name
    &&& a.hoposhell_folder_path == b.hoposhell_folder_path
    &&& a.default_cols == b.default_cols
    &&& a.default_rows == b.default_rows
    &&& a.verbose == b.verbose
    &&& a.command_timeout == b.command_timeout
    &&& a.format == b.format
}

/// Position of the first extra argument equal to `x`, from `i` on.
pub open spec fn find_arg_from(s: Seq<Seq<char>>, x: Seq<char>, i: int) -> Option<int>
    decreases s.len() - i,
    when 0 <= i <= s.len()
{
    if i >= s.len() {
        None
    } else if s[i] == x {
        Some(i)
    } else {
        find_arg_from(s, x, i + 1)
    }
}

proof fn lemma_find_arg_found(s: Seq<Seq<char>>, x: Seq<char>, from: int, i: int)
    requires
        0 <= from <= i < s.len(),
        s[i] == x,
        forall|j: int| from <= j < i ==> s[j] != x,
    ensures
        find_arg_from(s, x, from) == Some(i),
    decreases i - from,
{
    if from < i {
        lemma_find_arg_found(s, x, from + 1, i);
    }
}

proof fn lemma_find_arg_none(s: Seq<Seq<char>>, x: Seq<char>, from: int)
    requires
        0 <= from <= s.len(),
        forall|j: int| from <= j < s.len() ==> s[j] != x,
    ensures
        find_arg_from(s, x, from) is None,
    decreases s.len() - from,
{
    if from < s.len() {
        lemma_find_arg_none(s, x, from + 1);
    }
}

impl Args {
    /// The id of this shell: the configured name when one is set, else the
    /// stem of the shell key's file name.
    pub fn get_shell_id(&self) -> (r: Option<&str>)
        ensures
            match self.shell_name {
                Some(name) => r is Some && r->0@ == name@,
                None => match self.shell_key_path {
                    Some(path) => (r is Some <==> file_stem_of(path@) is Some) && (r is Some
                        ==> r->0@ == file_stem_of(path@)->0),
                    None => r is None,
                },
            },
    {
        match &self.shell_name {
            Some(name) => Some(name.as_str()),
            None => match &self.shell_key_path {
                Some(path) => path_file_stem(path.as_str()),
                None => None,
            },
        }
    }

    /// Take the first occurrence of `xa` out of the extra arguments; says
    /// whether one was there.
    pub fn consume_extra_arg(&mut self, xa: &str) -> (r: bool)
        ensures
            same_but_extra_args(old(self), final(self)),
            ({
                let old_args = old(self).extra_args@.map_values(|s: String| s@);
                let new_args = final(self).extra_args@.map_values(|s: String| s@);
                match find_arg_from(old_args, xa@, 0) {
                    Some(i) => r && new_args == old_args.remove(i),
                    None => !r && final(self).extra_args == old(self).extra_args,
                }
            }),
    {
        let ghost old_args = self.extra_args@.map_values(|s: String| s@);
        let mut i: usize = 0;
        while i < self.extra_args.len()
            invariant
                0 <= i <= self.extra_args@.len(),
                *self == *old(self),
                old_args == self.extra_args@.map_values(|s: String| s@),
                forall|j: int| 0 <= j < i ==> old_args[j] != xa@,
            decreases self.extra_args@.len() - i,
        {
            if str_eq(self.extra_args[i].as_str(), xa) {
                proof {
                    lemma_find_arg_found(old_args, xa@, 0, i as int);
                }
                let _removed = self.extra_args.remove(i);
                proof {
                    assert(self.extra_args@.map_values(|s: String| s@) =~= old_args.remove(
                        i as int,
                    ));
                }
                return true;
            }
            i = i + 1;
        }
        proof {
            lemma_find_arg_none(old_args, xa@, 0);
        }
        false
    }
}

/// Decimal parsing with an accumulator, refusing anything but digits and
/// any value above `u64::MAX`.
pub open spec fn parse_u64_digits(s: Seq<u8>, acc: int) -> Option<u64>
    decreases s.len(),
{
    if acc > 0xffff_ffff_ffff_ffff {
        None
    } else if s.len() == 0 {
        Some(acc as u64)
    } else if 48 <= s[0] <= 57 {
        parse_u64_digits(s.drop_first(), acc * 10 + (s[0] - 48))
    } else {
        None
    }
}

/// The number a decimal string denotes: an optional leading `+`, then
/// digits, value at most `u64::MAX`.
pub open spec fn parse_u64_of(s: Seq<u8>) -> Option<u64> {
    if s.len() == 0 {
        None
    } else if s[0] == 43 {
        if s.len() == 1 {
            None
        } else {
            parse_u64_digits(s.drop_first(), 0)
        }
    } else {
        parse_u64_digits(s, 0)
    }
}

/// The duration, in milliseconds, a configuration string denotes; `None`
/// when it is not a plain number.
pub fn parse_duration_from_ms_str(time_ms_str: &str) -> (r: Option<u64>)
    ensures
        r == parse_u64_of(time_ms_str.spec_bytes()),
{
    let b = time_ms_str.as_bytes();
    let n = b.len();
    if n == 0 {
        return None;
    }
    let mut i: usize = 0;
    if b[0] == 43 {
        if n == 1 {
            return None;
        }
        i = 1;
        assert(b@.skip(1) =~= b@.drop_first());
    } else {
        assert(b@.skip(0) =~= b@);
    }
    let mut acc: u64 = 0;
    while i < n
        invariant
            0 <= i <= n,
            n == b@.len(),
            b@ == time_ms_str.spec_bytes(),
            parse_u64_of(time_ms_str.spec_bytes()) == parse_u64_digits(
                b@.skip(i as int),
                acc as int,
            ),
        decreases n - i,
    {
        let d = b[i];
        proof {
            assert(b@.skip(i as int)[0] == b@[i as int]);
            assert(b@.skip(i as int).drop_first() =~= b@.skip(i + 1));
        }
        if d < 48 || d > 57 {
            assert(parse_u64_digits(b@.skip(i as int), acc as int) is None);
            return None;
        }
        let dv = (d - 48) as u64;
        if acc > (0xffff_ffff_ffff_ffffu64 - dv) / 10 {
            proof {
                vstd::arithmetic::div_mod::lemma_fundamental_div_mod(
                    0xffff_ffff_ffff_ffff - dv as int,
                    10,
                );
                assert(acc * 10 + dv > 0xffff_ffff_ffff_ffff);
                assert(parse_u64_digits(b@.skip(i + 1), acc as int * 10 + dv) is None);
                assert(parse_u64_digits(b@.skip(i as int), acc as int) is None);
            }
            return None;
        }
        proof {
            vstd::arithmetic::div_mod::lemma_fundamental_div_mod(
                0xffff_ffff_ffff_ffff - dv as int,
                10,
            );
            assert(acc * 10 + dv <= 0xffff_ffff_ffff_ffff);
        }
        acc = acc * 10 + dv;
        i = i + 1;
    }
    proof {
        assert(b@.skip(n as int) =~= Seq::<u8>::empty());
    }
    Some(acc)
}

/// ASCII lowering of one byte.
pub open spec fn ascii_lower_byte(b: u8) -> u8 {
    if 65 <= b <= 90 {
        (b + 32) as u8
    } else {
        b
    }
}

/// ASCII lowering of a byte string.
pub open spec fn ascii_lower_bytes(s: Seq<u8>) -> Seq<u8> {
    s.map_values(|b: u8| ascii_lower_byte(b))
}

/// Whether a boolean configuration string is on: exactly `no`, `false` and
/// `0`, in any letter case, switch it off; anything else switches it on.
pub open spec fn bool_flag_of(s: Seq<u8>) -> bool {
    !(ascii_lower_bytes(s) == seq![110u8, 111u8] || ascii_lower_bytes(s) == seq![
        102u8,
        97u8,
        108u8,
        115u8,
        101u8,
    ] || ascii_lower_bytes(s) == seq![48u8])
}

/// Read a boolean configuration string.
pub fn parse_bool_flag(s: &str) -> (r: bool)
    ensures
        r == bool_flag_of(s.spec_bytes()),
{
    let b = s.as_bytes();
    let ghost lo = ascii_lower_bytes(b@);
    proof {
        assert(lo.len() == b@.len());
    }
    let n = b.len();
    if n == 2 && (b[0] == 110 || b[0] == 78) && (b[1] == 111 || b[1] == 79) {
        proof {
            assert(lo =~= seq![110u8, 111u8]);
        }
        return false;
    }
    if n == 5 && (b[0] == 102 || b[0] == 70) && (b[1] == 97 || b[1] == 65) && (b[2] == 108 || b[2]
        == 76) && (b[3] == 115 || b[3] == 83) && (b[4] == 101 || b[4] == 69) {
        proof {
            assert(lo =~= seq![102u8, 97u8, 108u8, 115u8, 101u8]);
        }
        return false;
    }
    if n == 1 && b[0] == 48 {
        proof {
            assert(lo =~= seq![48u8]);
        }
        return false;
    }
    proof {
        if lo == seq![110u8, 111u8] {
            assert(lo[0] == ascii_lower_byte(b@[0]) && lo[1] == ascii_lower_byte(b@[1]));
            assert(false);
        }
        if lo == seq![102u8, 97u8, 108u8, 115u8, 101u8] {
            assert(lo[0] == ascii_lower_byte(b@[0]) && lo[1] == ascii_lower_byte(b@[1]) && lo[2]
                == ascii_lower_byte(b@[2]) && lo[3] == ascii_lower_byte(b@[3]) && lo[4]
                == ascii_lower_byte(b@[4]));
            assert(false);
        }
        if lo == seq![48u8] {
            assert(lo[0] == ascii_lower_byte(b@[0]));
            assert(false);
        }
    }
    true
}

} // verus!
