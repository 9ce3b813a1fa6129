//! The service's settings, and what is derived from them.

use crate::expiration::{order_check, Threshold, ThresholdError, ThresholdTable};
use crate::parse::is_digit;
use crate::quota::Ceilings;
use vstd::prelude::*;

verus! {

/// How much the service logs.
#[derive(Clone, Copy, Debug, PartialEq, Eq, Structural)]
pub enum LogLevel {
    Error,
    Warn,
    Info,
    Debug,
    Trace,
}

/// The log level that `n` requests for more verbosity select.
pub open spec fn level_of(n: u64) -> LogLevel {
    if n == 0 {
        LogLevel::Error
    } else if n == 1 {
        LogLevel::Warn
    } else if n == 2 {
        LogLevel::Info
    } else if n == 3 {
        LogLevel::Debug
    } else {
        LogLevel::Trace
    }
}

/// The log level that `n` requests for more verbosity select: errors only
/// by default, one level more per request, up to everything.
pub fn parse_log_level(n: u64) -> (level: LogLevel)
    ensures
        level == level_of(n),
{
    match n {
        0 => LogLevel::Error,
        1 => LogLevel::Warn,
        2 => LogLevel::Info,
        3 => LogLevel::Debug,
        _ => LogLevel::Trace,
    }
}

/// `byte_unit::ByteError`, known by name only: nothing is read out of it.
#[verifier::external_type_specification]
#[verifier::external_body]
pub struct ExByteError(byte_unit::ByteError);

/// The number of bytes that `byte_unit` reads out of a text such as
/// `"512"`, `"100kb"` or `"1.5 MiB"`; `None` where it reads no size.
pub uninterp spec fn parsed_size(text: Seq<char>) -> Option<u64>;

/// The letter stands for a unit of a billion bytes or more: giga, tera or
/// peta, decimal or binary.
pub open spec fn is_scale(c: char) -> bool {
    c == 'g' || c == 'G' || c == 't' || c == 'T' || c == 'p' || c == 'P'
}

/// The most digits that a number may have before its decimal point, for a
/// size in this unit to fit in 64 bits whatever the digits are: ten for
/// giga, seven for tera, four for peta.
pub open spec fn scale_digits(c: char) -> nat {
    if c == 'g' || c == 'G' {
        10
    } else if c == 't' || c == 'T' {
        7
    } else {
        4
    }
}

/// Whether a scan stops at the character: at a unit letter, and at a
/// decimal point too where `at_point` is set.
pub open spec fn stops_at(c: char, at_point: bool) -> bool {
    is_scale(c) || (at_point && c == '.')
}

/// Position of the first character at which a scan stops, or the length of
/// the text when there is none.
pub open spec fn first_stop(text: Seq<char>, at_point: bool) -> int
    decreases text.len(),
{
    if text.len() == 0 {
        0
    } else if stops_at(text[0], at_point) {
        0
    } else {
        1 + first_stop(text.drop_first(), at_point)
    }
}

/// The number of decimal digits in the text.
pub open spec fn digit_count(text: Seq<char>) -> nat
    decreases text.len(),
{
    if text.len() == 0 {
        0
    } else {
        digit_count(text.drop_last()) + if is_digit(text.last()) {
            1nat
        } else {
            0nat
        }
    }
}

/// The size that the text spells is small enough to be read: where the
/// text names a unit of a billion bytes or more, the number before that
/// unit has no more digits before its decimal point than the unit allows.
/// The unit is the first such letter of the text, and the digits counted
/// are those before the first decimal point or unit letter. A longer
/// number is out of range whatever its value; numbers in bytes, kilobytes
/// and megabytes are never out of range.
pub open spec fn size_in_range(text: Seq<char>) -> bool {
    let unit = first_stop(text, false);
    unit < text.len() ==> digit_count(text.take(first_stop(text, true))) <= scale_digits(
        text[unit],
    )
}

/// The size that a text stands for: what `byte_unit` reads out of it, where
/// the size is in range.
pub open spec fn size_of_text(text: Seq<char>) -> Option<u64> {
    if size_in_range(text) {
        parsed_size(text)
    } else {
        None
    }
}

/// `first_stop` is the least position at which a scan stops.
pub proof fn lemma_first_stop(text: Seq<char>, at_point: bool)
    ensures
        0 <= first_stop(text, at_point) <= text.len(),
        forall|j: int| 0 <= j < first_stop(text, at_point) ==> !stops_at(text[j], at_point),
        first_stop(text, at_point) < text.len() ==> stops_at(
            text[first_stop(text, at_point)],
            at_point,
        ),
    decreases text.len(),
{
    if text.len() > 0 && !stops_at(text[0], at_point) {
        let rest = text.drop_first();
        lemma_first_stop(rest, at_point);
        assert forall|j: int| 0 <= j < first_stop(text, at_point) implies !stops_at(
            text[j],
            at_point,
        ) by {
            if j > 0 {
                assert(text[j] == rest[j - 1]);
            }
        }
        let k = first_stop(rest, at_point);
        if k < rest.len() {
            assert(text[k + 1] == rest[k]);
        }
    }
}

/// A position at which a scan stops, with none before it, is the one that
/// `first_stop` names.
pub proof fn lemma_first_stop_is(text: Seq<char>, at_point: bool, k: int)
    requires
        0 <= k <= text.len(),
        forall|j: int| 0 <= j < k ==> !stops_at(text[j], at_point),
        k < text.len() ==> stops_at(text[k], at_point),
    ensures
        first_stop(text, at_point) == k,
{
    lemma_first_stop(text, at_point);
    let f = first_stop(text, at_point);
    if f < k {
        assert(!stops_at(text[f], at_point));
    } else if k < f {
        assert(!stops_at(text[k], at_point));
    }
}

/// Whether the letter stands for a unit of a billion bytes or more.
fn scale_letter(c: char) -> (b: bool)
    ensures
        b == is_scale(c),
{
    c == 'g' || c == 'G' || c == 't' || c == 'T' || c == 'p' || c == 'P'
}

/// Whether the size that the text spells is small enough to be read.
pub fn size_text_in_range(text: &str) -> (b: bool)
    ensures
        b == size_in_range(text@),
{
    let n = text.unicode_len();
    let mut digits: usize = 0;
    let mut i: usize = 0;
    while i < n && !(scale_letter(text.get_char(i)) || text.get_char(i) == '.')
        invariant
            n == text@.len(),
            i <= n,
            forall|j: int| 0 <= j < i ==> !stops_at(text@[j], true),
            digits == digit_count(text@.take(i as int)),
            digits <= i,
        decreases n - i,
    {
        let c = text.get_char(i);
        proof {
            assert(text@.take(i + 1).drop_last() =~= text@.take(i as int));
            assert(text@.take(i + 1).last() == c);
        }
        if '0' <= c && c <= '9' {
            digits += 1;
        }
        i += 1;
    }
    proof {
        lemma_first_stop_is(text@, true, i as int);
    }
    let mut k: usize = i;
    while k < n
        invariant
            n == text@.len(),
            i <= k <= n,
            i == first_stop(text@, true),
            digits == digit_count(text@.take(i as int)),
            forall|j: int| 0 <= j < k ==> !is_scale(text@[j]),
        decreases n - k,
    {
        let c = text.get_char(k);
        if scale_letter(c) {
            proof {
                lemma_first_stop_is(text@, false, k as int);
            }
            let most: usize = if c == 'g' || c == 'G' {
                10
            } else if c == 't' || c == 'T' {
                7
            } else {
                4
            };
            return digits <= most;
        }
        k += 1;
    }
    proof {
        lemma_first_stop_is(text@, false, k as int);
    }
    true
}

/// `byte_unit::Byte::from_str`, followed by `Byte::get_bytes` on success,
/// for a text whose size is in range. Out of range the call multiplies
/// past 64 bits; in range it returns for every text. The contract claims
/// only that the outcome is a function of the text: a size, or an error,
/// is what `parsed_size` says of the same characters.
#[verifier::external_body]
fn read_byte_size(text: &str) -> (r: Result<u64, byte_unit::ByteError>)
    requires
        size_in_range(text@),
    ensures
        r matches Ok(n) ==> parsed_size(text@) == Some(n),
        r is Err ==> parsed_size(text@) is None,
{
    match byte_unit::Byte::from_str(text) {
        Ok(size) => Ok(size.get_bytes()),
        Err(e) => Err(e),
    }
}

/// The text is not a size, or the size is out of range.
#[derive(Clone, Copy, Debug, PartialEq, Eq, Structural)]
pub struct InvalidSize;

/// Reads a size in bytes, with an optional unit. A size of ten to the
/// nineteenth bytes or more is refused before it is read.
pub fn parse_size(text: &str) -> (r: Result<u64, InvalidSize>)
    ensures
        match r {
            Ok(n) => size_of_text(text@) == Some(n),
            Err(_) => size_of_text(text@) is None,
        },
{
    if !size_text_in_range(text) {
        return Err(InvalidSize);
    }
    match read_byte_size(text) {
        Ok(n) => Ok(n),
        Err(_) => Err(InvalidSize),
    }
}

/// What identifies an uploader.
#[derive(Clone, Copy, Debug, PartialEq, Eq, Structural)]
pub enum Origin {
    IpAddress,
    Username,
}

/// The endpoints that ask for authentication.
#[derive(Clone, Copy, Debug, PartialEq, Eq, Structural)]
pub struct Features {
    pub upload: bool,
    pub download: bool,
}

/// An endpoint that may ask for authentication.
#[derive(Clone, Copy, Debug, PartialEq, Eq, Structural)]
pub enum Feature {
    Upload,
    Download,
}

impl Features {
    /// Whether the endpoint asks for authentication.
    pub open spec fn protects_spec(self, feature: Feature) -> bool {
        match feature {
            Feature::Upload => self.upload,
            Feature::Download => self.download,
        }
    }

    /// Whether the endpoint asks for authentication.
    pub fn protects(&self, feature: Feature) -> (b: bool)
        ensures
            b == self.protects_spec(feature),
    {
        match feature {
            Feature::Upload => self.upload,
            Feature::Download => self.download,
        }
    }

    /// Whether a caller may use the endpoint: always where the endpoint is
    /// open, and only once authenticated where it is protected.
    pub fn allows(&self, feature: Feature, authenticated: bool) -> (b: bool)
        ensures
            b == (authenticated || !self.protects_spec(feature)),
    {
        authenticated || !self.protects(feature)
    }
}

/// Some credential of the list has this name and this password.
pub open spec fn credential_known(
    credentials: Seq<Credential>,
    username: Seq<char>,
    password: Seq<char>,
) -> bool {
    exists|i: int|
        0 <= i < credentials.len() && (#[trigger] credentials[i]).username@ == username
            && credentials[i].password@ == password
}

/// Whether the list holds a credential with this name and this password.
pub fn knows(credentials: &Vec<Credential>, username: &String, password: &String) -> (b: bool)
    ensures
        b == credential_known(credentials@, username@, password@),
{
    let mut i: usize = 0;
    while i < credentials.len()
        invariant
            i <= credentials.len(),
            forall|j: int|
                0 <= j < i ==> !((#[trigger] credentials@[j]).username@ == username@
                    && credentials@[j].password@ == password@),
        decreases credentials.len() - i,
    {
        if credentials[i].username == *username && credentials[i].password == *password {
            return true;
        }
        i += 1;
    }
    false
}

/// The identity that uploads are accounted to: the caller's address where
/// uploaders are known by address, the name that the caller authenticated
/// with where they are known by name. A caller without a name has no
/// identity there.
pub fn identity(origin: Origin, address: String, username: Option<String>) -> (r: Option<String>)
    ensures
        text_of(r) == match origin {
            Origin::IpAddress => Some(address@),
            Origin::Username => text_of(username),
        },
{
    match origin {
        Origin::IpAddress => Some(address),
        Origin::Username => username,
    }
}

/// A user name and its password.
#[derive(Debug)]
pub struct Credential {
    pub username: String,
    pub password: String,
}

/// How a user is authenticated against the directory.
#[derive(Debug)]
pub enum LdapAuthProcess {
    /// Bind as the user, under a name made from this pattern.
    SingleBind { dn_pattern: String },
    /// Search the user under `base_dn` with `filter_pattern`, bound with
    /// `search_credentials` (name and password) if there are any; then bind
    /// as the user found.
    SearchThenBind {
        search_credentials: Option<(String, String)>,
        base_dn: String,
        filter_pattern: String,
    },
}

/// The directory and the way to authenticate against it.
#[derive(Debug)]
pub struct LdapAuthenticator {
    pub address: String,
    pub process: LdapAuthProcess,
}

/// An authentication process as a mathematical value.
pub ghost enum LdapProcessView {
    SingleBind { dn_pattern: Seq<char> },
    SearchThenBind {
        search_credentials: Option<(Seq<char>, Seq<char>)>,
        base_dn: Seq<char>,
        filter_pattern: Seq<char>,
    },
}

/// An authenticator as a mathematical value.
pub ghost struct LdapView {
    pub address: Seq<char>,
    pub process: LdapProcessView,
}

impl View for LdapAuthProcess {
    type V = LdapProcessView;

    open spec fn view(&self) -> LdapProcessView {
        match self {
            LdapAuthProcess::SingleBind { dn_pattern } => LdapProcessView::SingleBind {
                dn_pattern: dn_pattern@,
            },
            LdapAuthProcess::SearchThenBind {
                search_credentials,
                base_dn,
                filter_pattern,
            } => LdapProcessView::SearchThenBind {
                search_credentials: match search_credentials {
                    Some(pair) => Some((pair.0@, pair.1@)),
                    None => None,
                },
                base_dn: base_dn@,
                filter_pattern: filter_pattern@,
            },
        }
    }
}

impl View for LdapAuthenticator {
    type V = LdapView;

    open spec fn view(&self) -> LdapView {
        LdapView { address: self.address@, process: self.process@ }
    }
}

impl LdapAuthenticator {
    /// An authenticator for the directory at `address`.
    pub fn new(address: String, process: LdapAuthProcess) -> (a: LdapAuthenticator)
        ensures
            a@ == (LdapView { address: address@, process: process@ }),
    {
        LdapAuthenticator { address, process }
    }
}

/// The view of an optional text.
pub open spec fn text_of(text: Option<String>) -> Option<Seq<char>> {
    match text {
        Some(t) => Some(t@),
        None => None,
    }
}

/// The settings that the service is started with.
#[derive(Debug)]
pub struct Options {
    pub log_level: LogLevel,
    /// Directory of the uploaded files.
    pub uploads_dir: String,
    pub no_uploads_dir_creation: bool,
    /// Path of the metadata database.
    pub database: String,
    pub no_database_creation: bool,
    /// Listening address, in text form.
    pub address: String,
    pub port: u16,
    pub behind_proxy: bool,
    /// Size ceilings and durations, by increasing size and decreasing
    /// duration.
    pub thresholds: Vec<Threshold>,
    pub ip_origin: bool,
    pub username_origin: bool,
    /// Most bytes that one uploader may hold.
    pub origin_size_sum: u64,
    /// Most files that one uploader may hold.
    pub origin_file_count: usize,
    /// Most bytes that all uploaders together may hold.
    pub global_size_sum: u64,
    pub auth_upload: bool,
    pub auth_download: bool,
    pub credentials: Vec<Credential>,
    pub ldap_address: Option<String>,
    pub ldap_dn_pattern: Option<String>,
    pub ldap_search_base_dn: Option<String>,
    pub ldap_search_attribute_pattern: String,
    pub ldap_search_dn: Option<String>,
    pub ldap_search_password: Option<String>,
    /// Color of the web pages.
    pub theme: String,
}

impl Options {
    /// The authenticator that the settings describe, as a mathematical
    /// value. A name pattern selects the single bind and wins over a search
    /// base; without an address, or without either of the two, there is no
    /// authenticator. The search binds with credentials only where both
    /// name and password are set.
    pub open spec fn ldap_view(&self) -> Option<LdapView> {
        match (
            text_of(self.ldap_address),
            text_of(self.ldap_dn_pattern),
            text_of(self.ldap_search_base_dn),
        ) {
            (Some(address), Some(dn_pattern), _) => Some(
                LdapView { address, process: LdapProcessView::SingleBind { dn_pattern } },
            ),
            (Some(address), None, Some(base_dn)) => Some(
                LdapView {
                    address,
                    process: LdapProcessView::SearchThenBind {
                        search_credentials: match (
                            text_of(self.ldap_search_dn),
                            text_of(self.ldap_search_password),
                        ) {
                            (Some(name), Some(password)) => Some((name, password)),
                            _ => None,
                        },
                        base_dn,
                        filter_pattern: self.ldap_search_attribute_pattern@,
                    },
                },
            ),
            _ => None,
        }
    }

    /// What identifies an uploader: the IP address where that is asked for,
    /// else the user name where that is asked for.
    pub fn origin(&self) -> (o: Option<Origin>)
        ensures
            o == if self.ip_origin {
                Some(Origin::IpAddress)
            } else if self.username_origin {
                Some(Origin::Username)
            } else {
                None
            },
    {
        if self.ip_origin {
            Some(Origin::IpAddress)
        } else if self.username_origin {
            Some(Origin::Username)
        } else {
            None
        }
    }

    /// The endpoints that ask for authentication.
    pub fn access(&self) -> (f: Features)
        ensures
            f == (Features { upload: self.auth_upload, download: self.auth_download }),
    {
        let mut access = Features { upload: false, download: false };
        if self.auth_upload {
            access.upload = true;
        }
        if self.auth_download {
            access.download = true;
        }
        access
    }

    /// The authenticator that the settings describe, if they describe one.
    pub fn ldap_authenticator(&self) -> (r: Option<LdapAuthenticator>)
        ensures
            match r {
                Some(a) => self.ldap_view() == Some(a@),
                None => self.ldap_view() is None,
            },
    {
        let process = match (&self.ldap_dn_pattern, &self.ldap_search_base_dn) {
            (Some(dn_pattern), _) => LdapAuthProcess::SingleBind { dn_pattern: dn_pattern.clone() },
            (_, Some(base_dn)) => {
                let search_credentials = match (&self.ldap_search_dn, &self.ldap_search_password) {
                    (Some(name), Some(password)) => Some((name.clone(), password.clone())),
                    _ => None,
                };
                LdapAuthProcess::SearchThenBind {
                    search_credentials,
                    base_dn: base_dn.clone(),
                    filter_pattern: self.ldap_search_attribute_pattern.clone(),
                }
            },
            _ => {
                return None;
            },
        };
        match &self.ldap_address {
            Some(address) => Some(LdapAuthenticator::new(address.clone(), process)),
            None => None,
        }
    }

    /// The usage limits.
    pub fn ceilings(&self) -> (c: Ceilings)
        ensures
            c == (Ceilings {
                origin_size: self.origin_size_sum,
                origin_count: self.origin_file_count,
                global_size: self.global_size_sum,
            }),
    {
        Ceilings {
            origin_size: self.origin_size_sum,
            origin_count: self.origin_file_count,
            global_size: self.global_size_sum,
        }
    }

    /// The retention table, or the rule that is out of order.
    pub fn threshold_table(&self) -> (r: Result<ThresholdTable, ThresholdError>)
        ensures
            match r {
                Ok(table) => order_check(self.thresholds@) is None && table@ == self.thresholds@
                    && table.wf(),
                Err(e) => order_check(self.thresholds@) == Some(e),
            },
    {
        let mut rules: Vec<Threshold> = Vec::with_capacity(self.thresholds.len());
        let mut i: usize = 0;
        while i < self.thresholds.len()
            invariant
                i <= self.thresholds.len(),
                rules@ == self.thresholds@.take(i as int),
            decreases self.thresholds.len() - i,
        {
            rules.push(self.thresholds[i]);
            assert(self.thresholds@.take(i + 1) =~= self.thresholds@.take(i as int).push(
                self.thresholds@[i as int],
            ));
            i += 1;
        }
        assert(self.thresholds@.take(i as int) =~= self.thresholds@);
        ThresholdTable::new(rules)
    }
}

} // verus!
