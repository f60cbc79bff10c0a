//! The persisted install state: the one record shared across the per-step
//! process invocations. It carries the original arguments, the resolved home
//! directory (structured and string form), and the two directories later
//! steps depend on. Encoding to and decoding from its JSON form are verified
//! to round-trip exactly, and a step that needs an absent directory fails
//! loudly instead of defaulting.

use vstd::prelude::*;

use crate::errors::Error;
use crate::install::input_xray::{Install, InstallV};
use crate::jsontext::{
    enc_bool, enc_opt_str, enc_str, enc_str_arr, p_bool, p_lit, p_opt_str, p_quoted, p_str_arr,
    p_u64, lemma_p_bool_enc, lemma_p_lit_enc, lemma_p_opt_str_enc, lemma_p_quoted_enc,
    lemma_p_str_arr_enc, lemma_p_u64_enc, parse_bool, parse_lit, parse_opt_str, parse_quoted,
    parse_str_arr, parse_u64_at, views_of, views_of_strings, view_of_opt, write_bool,
    write_lit, write_opt_str, write_quoted_str, write_str_arr, write_u64,
};
use crate::text::{dec_str, is_digit, string_of};

verus! {

/// The cross-process memory of one orchestration run.
pub struct InstallState {
    pub args: Install,
    pub home_dir: String,
    pub home_dir_str: String,
    pub download_dir: Option<String>,
    pub cert_dir: Option<String>,
}

/// The mathematical content of [`InstallState`].
#[verifier::ext_equal]
pub struct InstallStateV {
    pub args: InstallV,
    pub home_dir: Seq<char>,
    pub home_dir_str: Seq<char>,
    pub download_dir: Option<Seq<char>>,
    pub cert_dir: Option<Seq<char>>,
}

impl View for InstallState {
    type V = InstallStateV;

    open spec fn view(&self) -> InstallStateV {
        InstallStateV {
            args: self.args@,
            home_dir: self.home_dir@,
            home_dir_str: self.home_dir_str@,
            download_dir: view_of_opt(self.download_dir),
            cert_dir: view_of_opt(self.cert_dir),
        }
    }
}

/// The state at orchestration start: arguments and home directory recorded,
/// both step-produced directories still absent.
pub open spec fn initial_state(a: InstallV, home: Seq<char>) -> InstallStateV {
    InstallStateV {
        args: a,
        home_dir: home,
        home_dir_str: home,
        download_dir: Option::None,
        cert_dir: Option::None,
    }
}

/// The state after the download step records its directory.
pub open spec fn with_download_dir(s: InstallStateV, d: Seq<char>) -> InstallStateV {
    InstallStateV { download_dir: Option::Some(d), ..s }
}

/// The state after the certificate step records its directory.
pub open spec fn with_cert_dir(s: InstallStateV, d: Seq<char>) -> InstallStateV {
    InstallStateV { cert_dir: Option::Some(d), ..s }
}

/// The canonical JSON encoding of the arguments object.
pub open spec fn enc_args(a: InstallV) -> Seq<char> {
    "{\"api\":"@ + enc_bool(a.api) + ",\"api_port\":"@ + dec_str(a.api_port as int)
        + ",\"domain\":"@ + enc_str(a.domain) + ",\"domain_renew_url\":"@ + enc_opt_str(
        a.domain_renew_url,
    ) + ",\"zerossl_email\":"@ + enc_str(a.zerossl_email) + ",\"add_users_count\":"@ + dec_str(
        a.add_users_count as int,
    ) + ",\"add_user_ids\":"@ + enc_str_arr(a.add_user_ids) + "}"@
}

/// The canonical JSON encoding of the whole state record.
pub open spec fn enc_state(v: InstallStateV) -> Seq<char> {
    "{\"args\":"@ + enc_args(v.args) + ",\"home_dir\":"@ + enc_str(v.home_dir)
        + ",\"home_dir_str\":"@ + enc_str(v.home_dir_str) + ",\"download_dir\":"@ + enc_opt_str(
        v.download_dir,
    ) + ",\"cert_dir\":"@ + enc_opt_str(v.cert_dir) + "}"@
}

/// Reads the arguments object.
pub open spec fn p_args(s: Seq<char>) -> Option<(InstallV, Seq<char>)> {
    match p_lit(s, "{\"api\":"@) {
        Option::None => Option::None,
        Option::Some(s1) => match p_bool(s1) {
            Option::None => Option::None,
            Option::Some((api, s2)) => match p_lit(s2, ",\"api_port\":"@) {
                Option::None => Option::None,
                Option::Some(s3) => match p_u64(s3) {
                    Option::None => Option::None,
                    Option::Some((port, s4)) => if port > u32::MAX as u64 {
                        Option::None
                    } else {
                        match p_lit(s4, ",\"domain\":"@) {
                            Option::None => Option::None,
                            Option::Some(s5) => match p_quoted(s5) {
                                Option::None => Option::None,
                                Option::Some((domain, s6)) => match p_lit(
                                    s6,
                                    ",\"domain_renew_url\":"@,
                                ) {
                                    Option::None => Option::None,
                                    Option::Some(s7) => match p_opt_str(s7) {
                                        Option::None => Option::None,
                                        Option::Some((renew, s8)) => match p_lit(
                                            s8,
                                            ",\"zerossl_email\":"@,
                                        ) {
                                            Option::None => Option::None,
                                            Option::Some(s9) => match p_quoted(s9) {
                                                Option::None => Option::None,
                                                Option::Some((email, s10)) => match p_lit(
                                                    s10,
                                                    ",\"add_users_count\":"@,
                                                ) {
                                                    Option::None => Option::None,
                                                    Option::Some(s11) => match p_u64(s11) {
                                                        Option::None => Option::None,
                                                        Option::Some((count, s12)) => if count
                                                            > usize::MAX as u64 {
                                                            Option::None
                                                        } else {
                                                            match p_lit(
                                                                s12,
                                                                ",\"add_user_ids\":"@,
                                                            ) {
                                                                Option::None => Option::None,
                                                                Option::Some(s13) => match p_str_arr(
                                                                    s13,
                                                                ) {
                                                                    Option::None => Option::None,
                                                                    Option::Some((ids, s14)) => match p_lit(
                                                                        s14,
                                                                        "}"@,
                                                                    ) {
                                                                        Option::None => Option::None,
                                                                        Option::Some(s15) => Option::Some(
                                                                            (
                                                                                InstallV {
                                                                                    api,
                                                                                    api_port: port as u32,
                                                                                    domain,
                                                                                    domain_renew_url: renew,
                                                                                    zerossl_email: email,
                                                                                    add_users_count: count as usize,
                                                                                    add_user_ids: ids,
                                                                                },
                                                                                s15,
                                                                            ),
                                                                        ),
                                                                    },
                                                                },
                                                            }
                                                        },
                                                    },
                                                },
                                            },
                                        },
                                    },
                                },
                            },
                        }
                    },
                },
            },
        },
    }
}

/// Reads the whole state record.
pub open spec fn p_state(s: Seq<char>) -> Option<(InstallStateV, Seq<char>)> {
    match p_lit(s, "{\"args\":"@) {
        Option::None => Option::None,
        Option::Some(s1) => match p_args(s1) {
            Option::None => Option::None,
            Option::Some((args, s2)) => match p_lit(s2, ",\"home_dir\":"@) {
                Option::None => Option::None,
                Option::Some(s3) => match p_quoted(s3) {
                    Option::None => Option::None,
                    Option::Some((home, s4)) => match p_lit(s4, ",\"home_dir_str\":"@) {
                        Option::None => Option::None,
                        Option::Some(s5) => match p_quoted(s5) {
                            Option::None => Option::None,
                            Option::Some((home_str, s6)) => match p_lit(
                                s6,
                                ",\"download_dir\":"@,
                            ) {
                                Option::None => Option::None,
                                Option::Some(s7) => match p_opt_str(s7) {
                                    Option::None => Option::None,
                                    Option::Some((dl, s8)) => match p_lit(s8, ",\"cert_dir\":"@) {
                                        Option::None => Option::None,
                                        Option::Some(s9) => match p_opt_str(s9) {
                                            Option::None => Option::None,
                                            Option::Some((cert, s10)) => match p_lit(s10, "}"@) {
                                                Option::None => Option::None,
                                                Option::Some(s11) => Option::Some(
                                                    (
                                                        InstallStateV {
                                                            args,
                                                            home_dir: home,
                                                            home_dir_str: home_str,
                                                            download_dir: dl,
                                                            cert_dir: cert,
                                                        },
                                                        s11,
                                                    ),
                                                ),
                                            },
                                        },
                                    },
                                },
                            },
                        },
                    },
                },
            },
        },
    }
}

/// What a persisted state file denotes: the record, if the text is exactly
/// one canonical encoding.
pub open spec fn decode_state(s: Seq<char>) -> Option<InstallStateV> {
    match p_state(s) {
        Option::Some((v, rest)) => if rest.len() == 0 {
            Option::Some(v)
        } else {
            Option::None
        },
        Option::None => Option::None,
    }
}

/// Reading an encoded arguments object returns the arguments.
#[verifier::rlimit(100)]
#[verifier::spinoff_prover]
pub proof fn lemma_p_args_enc(a: InstallV, rest: Seq<char>)
    ensures
        p_args(enc_args(a) + rest) == Option::Some((a, rest)),
{
    let u7 = "}"@ + rest;
    let c7 = enc_str_arr(a.add_user_ids) + u7;
    let u6 = ",\"add_user_ids\":"@ + c7;
    let c6 = dec_str(a.add_users_count as int) + u6;
    let u5 = ",\"add_users_count\":"@ + c6;
    let c5 = enc_str(a.zerossl_email) + u5;
    let u4 = ",\"zerossl_email\":"@ + c5;
    let c4 = enc_opt_str(a.domain_renew_url) + u4;
    let u3 = ",\"domain_renew_url\":"@ + c4;
    let c3 = enc_str(a.domain) + u3;
    let u2 = ",\"domain\":"@ + c3;
    let c2 = dec_str(a.api_port as int) + u2;
    let u1 = ",\"api_port\":"@ + c2;
    let c1 = enc_bool(a.api) + u1;
    let w = enc_args(a) + rest;
    assert(w =~= "{\"api\":"@ + c1);
    lemma_p_lit_enc("{\"api\":"@, c1);
    lemma_p_bool_enc(a.api, u1);
    lemma_p_lit_enc(",\"api_port\":"@, c2);
    reveal_strlit(",\"domain\":");
    assert(u2[0] == ',');
    assert(!is_digit(u2[0]));
    lemma_p_u64_enc(a.api_port as u64, u2);
    lemma_p_lit_enc(",\"domain\":"@, c3);
    lemma_p_quoted_enc(a.domain, u3);
    lemma_p_lit_enc(",\"domain_renew_url\":"@, c4);
    lemma_p_opt_str_enc(a.domain_renew_url, u4);
    lemma_p_lit_enc(",\"zerossl_email\":"@, c5);
    lemma_p_quoted_enc(a.zerossl_email, u5);
    lemma_p_lit_enc(",\"add_users_count\":"@, c6);
    reveal_strlit(",\"add_user_ids\":");
    assert(u6[0] == ',');
    assert(!is_digit(u6[0]));
    lemma_p_u64_enc(a.add_users_count as u64, u6);
    lemma_p_lit_enc(",\"add_user_ids\":"@, c7);
    lemma_p_str_arr_enc(a.add_user_ids, u7);
    lemma_p_lit_enc("}"@, rest);
    assert(a.api_port as u64 <= u32::MAX as u64);
    assert(a.add_users_count as u64 <= usize::MAX as u64);
    assert((a.api_port as u64) as u32 == a.api_port);
    assert((a.add_users_count as u64) as usize == a.add_users_count);
}

/// Reading an encoded state record returns the record.
#[verifier::rlimit(100)]
#[verifier::spinoff_prover]
pub proof fn lemma_p_state_enc(v: InstallStateV, rest: Seq<char>)
    ensures
        p_state(enc_state(v) + rest) == Option::Some((v, rest)),
{
    let u5 = "}"@ + rest;
    let c5 = enc_opt_str(v.cert_dir) + u5;
    let u4 = ",\"cert_dir\":"@ + c5;
    let c4 = enc_opt_str(v.download_dir) + u4;
    let u3 = ",\"download_dir\":"@ + c4;
    let c3 = enc_str(v.home_dir_str) + u3;
    let u2 = ",\"home_dir_str\":"@ + c3;
    let c2 = enc_str(v.home_dir) + u2;
    let u1 = ",\"home_dir\":"@ + c2;
    let c1 = enc_args(v.args) + u1;
    let w = enc_state(v) + rest;
    assert(w =~= "{\"args\":"@ + c1);
    lemma_p_lit_enc("{\"args\":"@, c1);
    lemma_p_args_enc(v.args, u1);
    lemma_p_lit_enc(",\"home_dir\":"@, c2);
    lemma_p_quoted_enc(v.home_dir, u2);
    lemma_p_lit_enc(",\"home_dir_str\":"@, c3);
    lemma_p_quoted_enc(v.home_dir_str, u3);
    lemma_p_lit_enc(",\"download_dir\":"@, c4);
    lemma_p_opt_str_enc(v.download_dir, u4);
    lemma_p_lit_enc(",\"cert_dir\":"@, c5);
    lemma_p_opt_str_enc(v.cert_dir, u5);
    lemma_p_lit_enc("}"@, rest);
}

/// Persisting a state record and reloading it yields the same record, in
/// every field, whether or not the optional directories are set.
pub proof fn lemma_state_round_trip(v: InstallStateV)
    ensures
        decode_state(enc_state(v)) == Option::Some(v),
{
    lemma_p_state_enc(v, Seq::empty());
    assert(enc_state(v) + Seq::<char>::empty() =~= enc_state(v));
}

/// Across one full run, the two step-produced directories are absent until
/// their steps record them, are then present, and nothing else of the state
/// ever changes; each stage survives persistence unchanged.
pub proof fn lemma_state_dir_lifecycle(a: InstallV, home: Seq<char>, dl: Seq<char>, cd: Seq<char>)
    ensures
        initial_state(a, home).download_dir is None,
        initial_state(a, home).cert_dir is None,
        with_download_dir(initial_state(a, home), dl).download_dir == Option::Some(dl),
        with_download_dir(initial_state(a, home), dl).cert_dir is None,
        with_cert_dir(with_download_dir(initial_state(a, home), dl), cd).download_dir
            == Option::Some(dl),
        with_cert_dir(with_download_dir(initial_state(a, home), dl), cd).cert_dir
            == Option::Some(cd),
        with_cert_dir(with_download_dir(initial_state(a, home), dl), cd).args == a,
        with_cert_dir(with_download_dir(initial_state(a, home), dl), cd).home_dir == home,
        decode_state(enc_state(initial_state(a, home))) == Option::Some(initial_state(a, home)),
        decode_state(enc_state(with_download_dir(initial_state(a, home), dl)))
            == Option::Some(with_download_dir(initial_state(a, home), dl)),
        decode_state(enc_state(with_cert_dir(with_download_dir(initial_state(a, home), dl), cd)))
            == Option::Some(with_cert_dir(with_download_dir(initial_state(a, home), dl), cd)),
{
    lemma_state_round_trip(initial_state(a, home));
    lemma_state_round_trip(with_download_dir(initial_state(a, home), dl));
    lemma_state_round_trip(with_cert_dir(with_download_dir(initial_state(a, home), dl), cd));
}

fn string_of_opt(o: Option<Vec<char>>) -> (r: Option<String>)
    ensures
        view_of_opt(r) == (match o {
            Option::None => Option::<Seq<char>>::None,
            Option::Some(v) => Option::Some(v@),
        }),
{
    match o {
        Some(v) => Some(string_of(&v)),
        None => None,
    }
}

fn strings_of_char_vecs(v: Vec<Vec<char>>) -> (r: Vec<String>)
    ensures
        views_of_strings(r@) == views_of(v@),
{
    let mut r: Vec<String> = Vec::new();
    let mut i: usize = 0;
    while i < v.len()
        invariant
            i <= v@.len(),
            r@.len() == i,
            forall|k: int| 0 <= k < i ==> r@[k]@ == #[trigger] v@[k]@,
        decreases v@.len() - i,
    {
        r.push(string_of(&v[i]));
        i = i + 1;
    }
    proof {
        assert(views_of_strings(r@) =~= views_of(v@));
    }
    r
}

impl InstallState {
    /// The state at orchestration start: both optional directories unset.
    pub fn new(args: Install, home: String) -> (r: InstallState)
        ensures
            r@ == initial_state(args@, home@),
    {
        let home_str = home.clone();
        InstallState {
            args,
            home_dir: home,
            home_dir_str: home_str,
            download_dir: None,
            cert_dir: None,
        }
    }

    /// Records the directory the download step produced.
    pub fn set_download_dir(&mut self, d: String)
        ensures
            final(self)@ == with_download_dir(old(self)@, d@),
    {
        self.download_dir = Some(d);
    }

    /// Records the directory the certificate step produced.
    pub fn set_cert_dir(&mut self, d: String)
        ensures
            final(self)@ == with_cert_dir(old(self)@, d@),
    {
        self.cert_dir = Some(d);
    }

    /// The download directory an earlier step must have recorded; failing
    /// loudly when it is absent signals a broken invocation order.
    pub fn require_download_dir(&self) -> (r: Result<&String, Error>)
        ensures
            match r {
                Result::Ok(d) => self@.download_dir == Option::Some(d@),
                Result::Err(e) => self@.download_dir is None && e is MissingDownloadDir,
            },
    {
        match &self.download_dir {
            Some(d) => Ok(d),
            None => Err(Error::MissingDownloadDir),
        }
    }

    /// The certificate directory an earlier step must have recorded.
    pub fn require_cert_dir(&self) -> (r: Result<&String, Error>)
        ensures
            match r {
                Result::Ok(d) => self@.cert_dir == Option::Some(d@),
                Result::Err(e) => self@.cert_dir is None && e is MissingCertDir,
            },
    {
        match &self.cert_dir {
            Some(d) => Ok(d),
            None => Err(Error::MissingCertDir),
        }
    }

    /// The canonical JSON text of this record.
    #[verifier::rlimit(100)]
    #[verifier::spinoff_prover]
    pub fn to_json(&self) -> (r: String)
        ensures
            r@ == enc_state(self@),
    {
        let mut out: Vec<char> = Vec::new();
        write_lit(&mut out, "{\"args\":");
        write_lit(&mut out, "{\"api\":");
        write_bool(&mut out, self.args.api);
        write_lit(&mut out, ",\"api_port\":");
        write_u64(&mut out, self.args.api_port as u64);
        write_lit(&mut out, ",\"domain\":");
        write_quoted_str(&mut out, self.args.domain.as_str());
        write_lit(&mut out, ",\"domain_renew_url\":");
        write_opt_str(&mut out, &self.args.domain_renew_url);
        write_lit(&mut out, ",\"zerossl_email\":");
        write_quoted_str(&mut out, self.args.zerossl_email.as_str());
        write_lit(&mut out, ",\"add_users_count\":");
        write_u64(&mut out, self.args.add_users_count as u64);
        write_lit(&mut out, ",\"add_user_ids\":");
        write_str_arr(&mut out, &self.args.add_user_ids);
        write_lit(&mut out, "}");
        write_lit(&mut out, ",\"home_dir\":");
        write_quoted_str(&mut out, self.home_dir.as_str());
        write_lit(&mut out, ",\"home_dir_str\":");
        write_quoted_str(&mut out, self.home_dir_str.as_str());
        write_lit(&mut out, ",\"download_dir\":");
        write_opt_str(&mut out, &self.download_dir);
        write_lit(&mut out, ",\"cert_dir\":");
        write_opt_str(&mut out, &self.cert_dir);
        write_lit(&mut out, "}");
        proof {
            assert(out@ =~= enc_state(self@));
        }
        string_of(&out)
    }

    /// The record a persisted text denotes; decoding fails exactly when the
    /// text is not a canonical state encoding.
    #[verifier::rlimit(100)]
    #[verifier::spinoff_prover]
    pub fn from_json(s: &str) -> (r: Result<InstallState, Error>)
        ensures
            match r {
                Result::Ok(st) => decode_state(s@) == Option::Some(st@),
                Result::Err(e) => decode_state(s@) is None && e is StateDecode,
            },
    {
        let v = crate::text::chars_of(s);
        proof {
            assert(v@.skip(0) =~= s@);
        }
        let Some(j1) = parse_lit(&v, 0, "{\"args\":") else {
            return Err(Error::StateDecode);
        };
        let Some((args, j16)) = parse_args_at(&v, j1) else {
            return Err(Error::StateDecode);
        };
        let Some(j17) = parse_lit(&v, j16, ",\"home_dir\":") else {
            return Err(Error::StateDecode);
        };
        let Some((home, j18)) = parse_quoted(&v, j17) else {
            return Err(Error::StateDecode);
        };
        let Some(j19) = parse_lit(&v, j18, ",\"home_dir_str\":") else {
            return Err(Error::StateDecode);
        };
        let Some((home_str, j20)) = parse_quoted(&v, j19) else {
            return Err(Error::StateDecode);
        };
        let Some(j21) = parse_lit(&v, j20, ",\"download_dir\":") else {
            return Err(Error::StateDecode);
        };
        let Some((dl, j22)) = parse_opt_str(&v, j21) else {
            return Err(Error::StateDecode);
        };
        let Some(j23) = parse_lit(&v, j22, ",\"cert_dir\":") else {
            return Err(Error::StateDecode);
        };
        let Some((cert, j24)) = parse_opt_str(&v, j23) else {
            return Err(Error::StateDecode);
        };
        let Some(j25) = parse_lit(&v, j24, "}") else {
            return Err(Error::StateDecode);
        };
        if j25 != v.len() {
            return Err(Error::StateDecode);
        }
        let st = InstallState {
            args,
            home_dir: string_of(&home),
            home_dir_str: string_of(&home_str),
            download_dir: string_of_opt(dl),
            cert_dir: string_of_opt(cert),
        };
        proof {
            assert(v@.skip(j25 as int) =~= Seq::<char>::empty());
        }
        Ok(st)
    }
}

/// Reads the arguments object starting at `pos`.
#[verifier::rlimit(100)]
#[verifier::spinoff_prover]
fn parse_args_at(v: &Vec<char>, pos: usize) -> (r: Option<(Install, usize)>)
    requires
        pos <= v@.len(),
    ensures
        match r {
            Some(p) => pos <= p.1 <= v@.len() && p_args(v@.skip(pos as int)) == Option::Some(
                (p.0@, v@.skip(p.1 as int)),
            ),
            None => p_args(v@.skip(pos as int)) is None,
        },
{
        let Some(j2) = parse_lit(v, pos, "{\"api\":") else {
            return None;
        };
        let Some((api, j3)) = parse_bool(v, j2) else {
            return None;
        };
        let Some(j4) = parse_lit(v, j3, ",\"api_port\":") else {
            return None;
        };
        let Some((port64, j5)) = parse_u64_at(v, j4) else {
            return None;
        };
        if port64 > u32::MAX as u64 {
            return None;
        }
        let Some(j6) = parse_lit(v, j5, ",\"domain\":") else {
            return None;
        };
        let Some((domain, j7)) = parse_quoted(v, j6) else {
            return None;
        };
        let Some(j8) = parse_lit(v, j7, ",\"domain_renew_url\":") else {
            return None;
        };
        let Some((renew, j9)) = parse_opt_str(v, j8) else {
            return None;
        };
        let Some(j10) = parse_lit(v, j9, ",\"zerossl_email\":") else {
            return None;
        };
        let Some((email, j11)) = parse_quoted(v, j10) else {
            return None;
        };
        let Some(j12) = parse_lit(v, j11, ",\"add_users_count\":") else {
            return None;
        };
        let Some((count64, j13)) = parse_u64_at(v, j12) else {
            return None;
        };
        if count64 > usize::MAX as u64 {
            return None;
        }
        let Some(j14) = parse_lit(v, j13, ",\"add_user_ids\":") else {
            return None;
        };
        let Some((ids, j15)) = parse_str_arr(v, j14) else {
            return None;
        };
        let Some(j16) = parse_lit(v, j15, "}") else {
            return None;
        };
        let ghost idsv = views_of(ids@);
        let inst = Install {
            api,
            api_port: port64 as u32,
            domain: string_of(&domain),
            domain_renew_url: string_of_opt(renew),
            zerossl_email: string_of(&email),
            add_users_count: count64 as usize,
            add_user_ids: strings_of_char_vecs(ids),
        };
        proof {
            assert(inst@.add_user_ids =~= idsv);
        }
        Some((inst, j16))
}

} // verus!


