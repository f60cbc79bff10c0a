//! The caller-supplied parameters of an Xray install, and the partially
//! filled input record that an interactive front end completes field by
//! field. Once explicit user identifiers are supplied, the requested count is
//! ignored; that selection rule lives with the configuration assembly.

use vstd::prelude::*;

use crate::text::{chars_of, clone_opt_string, clone_strings};

verus! {

/// The complete install parameters, immutable once the orchestration starts.
pub struct Install {
    pub api: bool,
    pub api_port: u32,
    pub domain: String,
    pub domain_renew_url: Option<String>,
    pub zerossl_email: String,
    pub add_users_count: usize,
    pub add_user_ids: Vec<String>,
}

/// The mathematical content of [`Install`]: every string as its characters.
#[verifier::ext_equal]
pub struct InstallV {
    pub api: bool,
    pub api_port: u32,
    pub domain: Seq<char>,
    pub domain_renew_url: Option<Seq<char>>,
    pub zerossl_email: Seq<char>,
    pub add_users_count: usize,
    pub add_user_ids: Seq<Seq<char>>,
}

impl View for Install {
    type V = InstallV;

    open spec fn view(&self) -> InstallV {
        InstallV {
            api: self.api,
            api_port: self.api_port,
            domain: self.domain@,
            domain_renew_url: match self.domain_renew_url {
                Option::None => Option::None,
                Option::Some(ref s) => Option::Some(s@),
            },
            zerossl_email: self.zerossl_email@,
            add_users_count: self.add_users_count,
            add_user_ids: Seq::new(
                self.add_user_ids@.len(),
                |i: int| self.add_user_ids@[i]@,
            ),
        }
    }
}

impl Install {
    /// A field-for-field copy.
    pub fn duplicate(&self) -> (r: Install)
        ensures
            r@ == self@,
    {
        let r = Install {
            api: self.api,
            api_port: self.api_port,
            domain: self.domain.clone(),
            domain_renew_url: clone_opt_string(&self.domain_renew_url),
            zerossl_email: self.zerossl_email.clone(),
            add_users_count: self.add_users_count,
            add_user_ids: clone_strings(&self.add_user_ids),
        };
        proof {
            assert(r@.add_user_ids =~= self@.add_user_ids);
        }
        r
    }
}

/// The caller-side arguments: flags always carry a value, the free-form
/// parameters may still be missing and are then asked for interactively.
pub struct InstallArgs {
    pub api: bool,
    pub api_port: u32,
    pub domain: Option<String>,
    pub domain_renew_url: Option<String>,
    pub zerossl_email: Option<String>,
    pub add_users_count: usize,
    pub add_user_ids: Vec<String>,
}

/// The input record built up across prompts; it persists between aborted
/// runs, so a later run re-offers earlier answers.
pub struct DataInput {
    pub api: bool,
    pub api_port: u32,
    pub domain: Option<String>,
    pub domain_renew_url: Option<String>,
    pub zerossl_email: Option<String>,
    pub add_users_count: usize,
    pub add_user_ids: Vec<String>,
}

impl DataInput {
    /// An empty input record: everything still to be asked.
    pub fn new() -> (r: DataInput)
        ensures
            r.api == false,
            r.api_port == 0,
            r.domain is None,
            r.domain_renew_url is None,
            r.zerossl_email is None,
            r.add_users_count == 0,
            r.add_user_ids@.len() == 0,
    {
        DataInput {
            api: false,
            api_port: 0,
            domain: None,
            domain_renew_url: None,
            zerossl_email: None,
            add_users_count: 0,
            add_user_ids: Vec::new(),
        }
    }

    /// Overlays command-line arguments on the record: value-carrying fields
    /// are taken as given, optional fields only where supplied.
    pub fn update_from_args(self, args: InstallArgs) -> (r: DataInput)
        ensures
            r.api == args.api,
            r.api_port == args.api_port,
            r.add_users_count == args.add_users_count,
            r.add_user_ids == args.add_user_ids,
            r.domain == (if args.domain is Some {
                args.domain
            } else {
                self.domain
            }),
            r.domain_renew_url == (if args.domain_renew_url is Some {
                args.domain_renew_url
            } else {
                self.domain_renew_url
            }),
            r.zerossl_email == (if args.zerossl_email is Some {
                args.zerossl_email
            } else {
                self.zerossl_email
            }),
    {
        let mut r = self;
        r.api = args.api;
        r.api_port = args.api_port;
        r.add_users_count = args.add_users_count;
        r.add_user_ids = args.add_user_ids;
        if let arg @ Some(_) = args.domain {
            r.domain = arg;
        }
        if let arg @ Some(_) = args.domain_renew_url {
            r.domain_renew_url = arg;
        }
        if let arg @ Some(_) = args.zerossl_email {
            r.zerossl_email = arg;
        }
        r
    }

    /// The completed parameters, owed exactly when the domain and the
    /// certificate-account email have both been answered.
    pub fn complete(self) -> (r: Option<Install>)
        ensures
            match r {
                Option::Some(inst) => {
                    &&& self.domain matches Option::Some(d) && inst.domain == d
                    &&& self.zerossl_email matches Option::Some(e) && inst.zerossl_email == e
                    &&& inst.api == self.api
                    &&& inst.api_port == self.api_port
                    &&& inst.domain_renew_url == self.domain_renew_url
                    &&& inst.add_users_count == self.add_users_count
                    &&& inst.add_user_ids == self.add_user_ids
                },
                Option::None => self.domain is None || self.zerossl_email is None,
            },
    {
        match (self.domain, self.zerossl_email) {
            (Some(domain), Some(zerossl_email)) => Some(
                Install {
                    api: self.api,
                    api_port: self.api_port,
                    domain,
                    domain_renew_url: self.domain_renew_url,
                    zerossl_email,
                    add_users_count: self.add_users_count,
                    add_user_ids: self.add_user_ids,
                },
            ),
            _ => None,
        }
    }
}

/// A line with its trailing carriage return removed, as line splitting
/// treats network line endings.
pub open spec fn chomp_cr(l: Seq<char>) -> Seq<char> {
    if l.len() > 0 && l.last() == '\r' {
        l.drop_last()
    } else {
        l
    }
}

#[via_fn]
proof fn split_lines_decreases(s: Seq<char>)
{
    crate::version::lemma_find_char_bounds(s, '\n');
}

/// The lines of a text: split at newlines, each stripped of a trailing
/// carriage return, with no empty line for a terminal newline.
pub open spec fn split_lines(s: Seq<char>) -> Seq<Seq<char>>
    decreases s.len(),
        via split_lines_decreases
{
    if s.len() == 0 {
        Seq::empty()
    } else {
        match crate::version::find_char(s, '\n') {
            Option::None => seq![chomp_cr(s)],
            Option::Some(i) => seq![chomp_cr(s.subrange(0, i))] + split_lines(s.skip(i + 1)),
        }
    }
}

pub open spec fn trim_start(s: Seq<char>) -> Seq<char>
    decreases s.len(),
{
    if s.len() > 0 && crate::install::xray::is_space(s[0]) {
        trim_start(s.drop_first())
    } else {
        s
    }
}

pub open spec fn trim_end(s: Seq<char>) -> Seq<char>
    decreases s.len(),
{
    if s.len() > 0 && crate::install::xray::is_space(s.last()) {
        trim_end(s.drop_last())
    } else {
        s
    }
}

/// The text without leading and trailing whitespace.
pub open spec fn trim_spec(s: Seq<char>) -> Seq<char> {
    trim_end(trim_start(s))
}

/// The identifiers of an add-users file: each line trimmed, lines starting
/// with `#` ignored, everything else kept as written, empty lines included.
pub open spec fn ids_of_lines(lines: Seq<Seq<char>>) -> Seq<Seq<char>>
    decreases lines.len(),
{
    if lines.len() == 0 {
        Seq::empty()
    } else {
        let t = trim_spec(lines[0]);
        (if t.len() > 0 && t[0] == '#' {
            Seq::<Seq<char>>::empty()
        } else {
            seq![t]
        }) + ids_of_lines(lines.drop_first())
    }
}

pub open spec fn parsed_user_ids(text: Seq<char>) -> Seq<Seq<char>> {
    ids_of_lines(split_lines(text))
}

proof fn lemma_trim_start_char(s: Seq<char>, k: int)
    requires
        0 <= k <= s.len(),
        forall|i: int| 0 <= i < k ==> crate::install::xray::is_space(#[trigger] s[i]),
        k < s.len() ==> !crate::install::xray::is_space(s[k]),
    ensures
        trim_start(s) == s.skip(k),
    decreases k,
{
    if k == 0 {
        assert(s.skip(0) =~= s);
    } else {
        assert(crate::install::xray::is_space(s[0]));
        lemma_trim_start_char(s.drop_first(), k - 1);
        assert(forall|i: int| 0 <= i < s.len() - 1 ==> s.drop_first()[i] == #[trigger] s[i + 1]);
        assert(s.drop_first().skip(k - 1) =~= s.skip(k));
    }
}

proof fn lemma_trim_end_char(s: Seq<char>, k: int)
    requires
        0 <= k <= s.len(),
        forall|i: int| k <= i < s.len() ==> crate::install::xray::is_space(#[trigger] s[i]),
        k > 0 ==> !crate::install::xray::is_space(s[k - 1]),
    ensures
        trim_end(s) == s.subrange(0, k),
    decreases s.len() - k,
{
    if k == s.len() {
        if s.len() > 0 {
            assert(!crate::install::xray::is_space(s.last()));
        }
        assert(s.subrange(0, k) =~= s);
    } else {
        assert(crate::install::xray::is_space(s.last()));
        lemma_trim_end_char(s.drop_last(), k);
        assert(forall|i: int| 0 <= i < s.len() - 1 ==> s.drop_last()[i] == #[trigger] s[i]);
        assert(s.drop_last().subrange(0, k) =~= s.subrange(0, k));
    }
}

/// Reads an add-users file: one identifier per line, trimmed; lines
/// starting with `#` are ignored; no deduplication and no other filtering.
#[verifier::rlimit(100)]
#[verifier::spinoff_prover]
pub fn parse_add_users_file(text: &str) -> (r: Vec<String>)
    ensures
        crate::jsontext::views_of_strings(r@) == parsed_user_ids(text@),
{
    let cs = chars_of(text);
    let mut out: Vec<String> = Vec::new();
    let mut pos: usize = 0;
    proof {
        assert(cs@.skip(0) =~= cs@);
        assert(crate::jsontext::views_of_strings(out@) + parsed_user_ids(cs@) =~= parsed_user_ids(
            text@,
        ));
    }
    while pos < cs.len()
        invariant
            pos <= cs@.len(),
            cs@ == text@,
            parsed_user_ids(text@) == crate::jsontext::views_of_strings(out@) + ids_of_lines(
                split_lines(cs@.skip(pos as int)),
            ),
        decreases cs@.len() - pos,
    {
        let ghost rem = cs@.skip(pos as int);
        let ghost out_pre = crate::jsontext::views_of_strings(out@);
        // Find the end of this line.
        let mut i = pos;
        let mut nl: Option<usize> = None;
        while i < cs.len() && nl.is_none()
            invariant
                pos <= i <= cs@.len(),
                match nl {
                    Option::Some(d) => pos <= d < cs@.len() && cs@[d as int] == '\n' && i == d + 1
                        && forall|j: int| pos <= j < d ==> cs@[j] != '\n',
                    Option::None => forall|j: int| pos <= j < i ==> cs@[j] != '\n',
                },
            decreases cs@.len() - i,
        {
            if cs[i] == '\n' {
                nl = Some(i);
            }
            i = i + 1;
        }
        proof {
            assert(forall|j: int| 0 <= j < rem.len() ==> rem[j] == #[trigger] cs@[pos + j]);
            match nl {
                Option::Some(d) => {
                    crate::version::lemma_find_char_at(rem, '\n', d - pos);
                },
                Option::None => {
                    crate::version::lemma_find_char_at(rem, '\n', rem.len() as int);
                },
            }
        }
        let line_end = match nl {
            Some(d) => d,
            None => cs.len(),
        };
        let ghost raw = rem.subrange(0, line_end - pos);
        proof {
            match nl {
                Option::Some(d) => {
                    assert(split_lines(rem) == seq![chomp_cr(raw)] + split_lines(
                        rem.skip(line_end - pos + 1),
                    ));
                    assert(rem.skip(line_end - pos + 1) =~= cs@.skip(line_end as int + 1));
                },
                Option::None => {
                    assert(raw =~= rem);
                    assert(split_lines(rem) == seq![chomp_cr(rem)]);
                    assert(split_lines(rem) == seq![chomp_cr(raw)] + Seq::<Seq<char>>::empty());
                    assert(split_lines(Seq::<char>::empty()) =~= Seq::<Seq<char>>::empty());
                },
            }
        }
        // Strip a trailing carriage return.
        let mut le = line_end;
        if le > pos && cs[le - 1] == '\r' {
            le = le - 1;
        }
        let ghost line = cs@.subrange(pos as int, le as int);
        proof {
            assert(raw =~= cs@.subrange(pos as int, line_end as int));
            if line_end > pos && cs@[line_end - 1] == '\r' {
                assert(raw.last() == '\r');
                assert(raw.drop_last() =~= line);
                assert(chomp_cr(raw) == line);
            } else {
                if raw.len() > 0 {
                    assert(raw.last() == cs@[line_end - 1]);
                }
                assert(raw =~= line);
                assert(chomp_cr(raw) == line);
            }
        }
        // Trim the line.
        let mut a = pos;
        while a < le && crate::install::xray::is_space_exec(cs[a])
            invariant
                pos <= a <= le <= cs@.len(),
                forall|j: int|
                    pos <= j < a ==> crate::install::xray::is_space(#[trigger] cs@[j]),
            decreases le - a,
        {
            a = a + 1;
        }
        let mut b = le;
        while b > a && crate::install::xray::is_space_exec(cs[b - 1])
            invariant
                a <= b <= le <= cs@.len(),
                forall|j: int|
                    b <= j < le ==> crate::install::xray::is_space(#[trigger] cs@[j]),
            decreases b,
        {
            b = b - 1;
        }
        let ghost t = cs@.subrange(a as int, b as int);
        proof {
            assert(forall|j: int| 0 <= j < line.len() ==> line[j] == #[trigger] cs@[pos + j]);
            lemma_trim_start_char(line, a - pos);
            let afterstart = line.skip(a - pos);
            assert(afterstart =~= cs@.subrange(a as int, le as int));
            assert(forall|j: int|
                0 <= j < afterstart.len() ==> afterstart[j] == #[trigger] cs@[a + j]);
            lemma_trim_end_char(afterstart, b - a);
            assert(afterstart.subrange(0, b - a) =~= t);
            assert(trim_spec(line) == t);
        }
        // Keep the identifier unless the line is a comment.
        let is_comment = b > a && cs[a] == '#';
        proof {
            if t.len() > 0 {
                assert(t[0] == cs@[a as int]);
            }
        }
        if !is_comment {
            let idv = crate::text::subrange_vec(&cs, a, b);
            out.push(crate::text::string_of(&idv));
        }
        pos = match nl {
            Some(d) => d + 1,
            None => cs.len(),
        };
        proof {
            let lines_rem = split_lines(rem);
            let rest = split_lines(cs@.skip(pos as int));
            assert(lines_rem.drop_first() =~= rest);
            assert(lines_rem[0] == trim_spec(line) || lines_rem[0] == chomp_cr(raw));
            assert(ids_of_lines(lines_rem) == (if trim_spec(chomp_cr(raw)).len() > 0
                && trim_spec(chomp_cr(raw))[0] == '#' {
                Seq::<Seq<char>>::empty()
            } else {
                seq![trim_spec(chomp_cr(raw))]
            }) + ids_of_lines(rest));
            if is_comment {
                assert(crate::jsontext::views_of_strings(out@) =~= out_pre);
                assert(out_pre + ids_of_lines(lines_rem) =~= out_pre + ids_of_lines(rest));
            } else {
                assert(crate::jsontext::views_of_strings(out@) =~= out_pre + seq![t]);
                assert(out_pre + ids_of_lines(lines_rem) =~= (out_pre + seq![t]) + ids_of_lines(
                    rest,
                ));
            }
        }
    }
    proof {
        assert(cs@.skip(cs@.len() as int) =~= Seq::<char>::empty());
        assert(crate::jsontext::views_of_strings(out@) + Seq::<Seq<char>>::empty()
            =~= crate::jsontext::views_of_strings(out@));
    }
    out
}

} // verus!
