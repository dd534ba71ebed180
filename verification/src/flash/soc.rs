//! The firmware package (`.soc`): what its `info.json` says, and how the
//! download tool inside it is invoked.

use vstd::prelude::*;

use crate::cli::{number_or, DEFAULT_LOG_BAUD};
use crate::text::{
    all_digits, decimal, is_ascii_digit, is_digit, lemma_decimal_parses, parse_u32, push_str,
    string_views, trim, trim_white,
};

verus! {

/// The ROM image of a package.
pub struct SocRom {
    /// File name of the image inside the package.
    pub file: String,
}

/// Download settings of a package.
pub struct SocDownload {
    /// Baud rate forced for flashing, as written in the package.
    pub force_br: Option<String>,
    /// Boot-loader address, as written in the package.
    pub bl_addr: Option<String>,
}

/// Settings of a package for the user.
pub struct SocUser {
    /// Baud rate of the device's log output, as written in the package.
    pub log_br: Option<String>,
}

/// The parts of a package's `info.json` that the tool reads.
pub struct SocInfo {
    pub rom: SocRom,
    pub download: SocDownload,
    pub user: Option<SocUser>,
}

/// The name of the download tool shipped inside a package.
pub open spec fn flash_tool_name() -> Seq<char> {
    "air602_flash.exe"@
}

/// The name of the download tool shipped inside a package.
pub fn flash_tool() -> (r: String)
    ensures
        r@ == flash_tool_name(),
{
    "air602_flash.exe".to_owned()
}

impl SocInfo {
    /// The log baud rate written in the package, if any.
    pub open spec fn log_br(&self) -> Option<Seq<char>> {
        match self.user {
            Some(u) => match u.log_br {
                Some(b) => Some(b@),
                None => None,
            },
            None => None,
        }
    }

    /// The baud rate of the device's boot log: the package's log baud rate
    /// when it reads as a `u32`, else 2000000.
    pub fn log_baud(&self) -> (r: u32)
        ensures
            r == number_or(self.log_br(), u32::MAX as int, DEFAULT_LOG_BAUD as int),
    {
        match &self.user {
            Some(u) => match &u.log_br {
                Some(b) => match parse_u32(b.as_str()) {
                    Some(v) => v,
                    None => DEFAULT_LOG_BAUD,
                },
                None => DEFAULT_LOG_BAUD,
            },
            None => DEFAULT_LOG_BAUD,
        }
    }

    /// The flash baud rate as shown: the package's, or `"default"`.
    pub fn flash_baud_label(&self) -> (r: String)
        ensures
            r@ == match self.download.force_br {
                Some(b) => b@,
                None => "default"@,
            },
    {
        match &self.download.force_br {
            Some(b) => b.clone(),
            None => "default".to_owned(),
        }
    }

    /// The log baud rate as shown: the package's text, or `"2000000"`.
    pub fn log_baud_label(&self) -> (r: String)
        ensures
            r@ == match self.log_br() {
                Some(b) => b,
                None => "2000000"@,
            },
    {
        match &self.user {
            Some(u) => match &u.log_br {
                Some(b) => b.clone(),
                None => "2000000".to_owned(),
            },
            None => "2000000".to_owned(),
        }
    }
}

/// The decimal digits of `s`, in order.
pub open spec fn digits_of(s: Seq<char>) -> Seq<char>
    decreases s.len(),
{
    if s.len() == 0 {
        Seq::<char>::empty()
    } else if is_digit(s.last()) {
        digits_of(s.drop_last()).push(s.last())
    } else {
        digits_of(s.drop_last())
    }
}

/// The port number the download tool takes: the decimal digits of the port
/// name (`"COM6"` gives `"6"`).
pub fn port_number(port: &str) -> (r: String)
    ensures
        r@ == digits_of(port@),
{
    let cs = crate::text::chars_of(port);
    let mut r = String::new();
    let mut i: usize = 0;
    while i < cs.len()
        invariant
            cs@ == port@,
            i <= cs@.len(),
            r@ == digits_of(cs@.subrange(0, i as int)),
        decreases cs@.len() - i,
    {
        let c = cs[i];
        assert(cs@.subrange(0, i + 1).drop_last() == cs@.subrange(0, i as int));
        if is_ascii_digit(c) {
            r.push(c);
        }
        i = i + 1;
    }
    assert(cs@.subrange(0, cs@.len() as int) == cs@);
    r
}

/// The arguments of the download tool for a port numbered `n`, before the
/// ROM path: `download -p <n> -b 2000000 -s 0 -i`.
pub open spec fn tool_args(n: Seq<char>) -> Seq<Seq<char>> {
    seq!["download"@, "-p"@, n, "-b"@, "2000000"@, "-s"@, "0"@, "-i"@]
}

/// The arguments of the download tool for `port` (see `tool_args`), or
/// `"Invalid port name: <port>"` when the name holds no digit.
pub fn flash_tool_args(port: &str) -> (r: Result<Vec<String>, String>)
    ensures
        match r {
            Ok(args) => digits_of(port@).len() > 0 && string_views(args@) == tool_args(
                digits_of(port@),
            ),
            Err(m) => digits_of(port@).len() == 0 && m@ == "Invalid port name: "@ + port@,
        },
{
    let n = port_number(port);
    if n.as_str().is_empty() {
        let mut m = String::new();
        push_str(&mut m, "Invalid port name: ");
        push_str(&mut m, port);
        return Err(m);
    }
    let ghost nv = n@;
    let args = vec![
        "download".to_owned(),
        "-p".to_owned(),
        n,
        "-b".to_owned(),
        "2000000".to_owned(),
        "-s".to_owned(),
        "0".to_owned(),
        "-i".to_owned(),
    ];
    assert(string_views(args@) == tool_args(nv));
    Ok(args)
}

/// What is shown of a line the download tool prints: the line trimmed of
/// white space, or nothing when that leaves it empty.
pub fn tool_output_line(line: &str) -> (r: Option<String>)
    ensures
        match r {
            Some(t) => t@ == trim_white(line@) && t@.len() > 0,
            None => trim_white(line@).len() == 0,
        },
{
    let t = trim(line);
    if t.as_str().is_empty() {
        None
    } else {
        Some(t)
    }
}

/// The port number keeps exactly the characters `'0'..='9'` of the port
/// name, in order, and nothing else.
pub proof fn lemma_port_number_is_digit_filter(port: Seq<char>)
    ensures
        digits_of(port) == port.filter(|c: char| '0' <= c && c <= '9'),
    decreases port.len(),
{
    reveal(Seq::filter);
    if port.len() > 0 {
        lemma_port_number_is_digit_filter(port.drop_last());
    }
}

/// A port name made of a digit-free prefix and the decimal number `n`
/// (`"COM10"`) gives the decimal text of `n` as its port number.
pub proof fn lemma_port_number_of_numbered_name(prefix: Seq<char>, n: nat)
    requires
        forall|i: int| 0 <= i < prefix.len() ==> !('0' <= #[trigger] prefix[i] && prefix[i] <= '9'),
    ensures
        digits_of(prefix + decimal(n)) == decimal(n),
{
    lemma_decimal_parses(n);
    lemma_digits_of_append(prefix, decimal(n));
}

proof fn lemma_digits_of_append(prefix: Seq<char>, d: Seq<char>)
    requires
        forall|i: int| 0 <= i < prefix.len() ==> !('0' <= #[trigger] prefix[i] && prefix[i] <= '9'),
        all_digits(d),
    ensures
        digits_of(prefix + d) == d,
    decreases d.len(),
{
    if d.len() == 0 {
        assert(prefix + d == prefix);
        lemma_digits_of_none(prefix);
    } else {
        assert((prefix + d).drop_last() == prefix + d.drop_last());
        assert((prefix + d).last() == d.last());
        assert(is_digit(d[d.len() - 1]));
        assert(all_digits(d.drop_last())) by {
            assert forall|i: int| 0 <= i < d.drop_last().len() implies is_digit(
                #[trigger] d.drop_last()[i],
            ) by {
                assert(d.drop_last()[i] == d[i]);
            }
        }
        lemma_digits_of_append(prefix, d.drop_last());
        assert(d.drop_last().push(d.last()) == d);
    }
}

proof fn lemma_digits_of_none(s: Seq<char>)
    requires
        forall|i: int| 0 <= i < s.len() ==> !('0' <= #[trigger] s[i] && s[i] <= '9'),
    ensures
        digits_of(s) == Seq::<char>::empty(),
    decreases s.len(),
{
    if s.len() > 0 {
        assert(!is_digit(s[s.len() - 1]));
        assert forall|i: int| 0 <= i < s.drop_last().len() implies !('0' <= #[trigger] s.drop_last()[i]
            && s.drop_last()[i] <= '9') by {
            assert(s.drop_last()[i] == s[i]);
        }
        lemma_digits_of_none(s.drop_last());
    }
}

/// The boot-log baud rate comes from the package's user settings alone: two
/// packages with the same user settings give the same log baud rate, whatever
/// their ROM and download settings.
pub proof fn lemma_log_baud_from_user_only(a: SocInfo, b: SocInfo)
    requires
        a.user == b.user,
    ensures
        a.log_br() == b.log_br(),
{
}

/// Without a user log baud rate the boot log is read at 2000000 baud and
/// labelled `"2000000"`, whatever else the package says.
pub proof fn lemma_log_baud_default(info: SocInfo)
    requires
        info.user is None || info.user->0.log_br is None,
    ensures
        info.log_br() is None,
        number_or(info.log_br(), u32::MAX as int, DEFAULT_LOG_BAUD as int) == 2_000_000,
{
}

/// With a user log baud rate, the label is its text and the rate is its
/// value whenever that text reads as a `u32`.
pub proof fn lemma_log_baud_given(info: SocInfo, v: int)
    requires
        info.user matches Some(u) && u.log_br matches Some(b) && crate::text::parse_bounded(
            b@,
            u32::MAX as int,
        ) == Some(v),
    ensures
        info.log_br() == Some(info.user->0.log_br->0@),
        number_or(info.log_br(), u32::MAX as int, DEFAULT_LOG_BAUD as int) == v,
{
}

} // verus!
