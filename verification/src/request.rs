//! Request kinds, SDK libraries, and the Redis key layout of the billing
//! counters.

use vstd::prelude::*;
use vstd::string::*;

verus! {

/// The kind of billable flag request.
#[derive(Debug, Clone, Copy, PartialEq, Eq, Hash, Structural)]
pub enum FlagRequestType {
    Decide,
    FlagDefinitions,
}

/// The SDK that issued a request, as reported by the client.
#[derive(Debug, Clone, Copy, PartialEq, Eq, Hash, Structural)]
pub enum Library {
    PosthogJs,
    PosthogNode,
    PosthogPython,
    PosthogPhp,
    PosthogRuby,
    PosthogGo,
    PosthogJava,
    PosthogDotnet,
    PosthogElixir,
    PosthogAndroid,
    PosthogIos,
    PosthogReactNative,
    PosthogFlutter,
    Other,
}

/// The label under which a request type is reported.
pub open spec fn request_type_name(t: FlagRequestType) -> Seq<char> {
    match t {
        FlagRequestType::Decide => "decide"@,
        FlagRequestType::FlagDefinitions => "flag_definitions"@,
    }
}

/// The name under which a library is reported and keyed.
pub open spec fn library_name(l: Library) -> Seq<char> {
    match l {
        Library::PosthogJs => "posthog-js"@,
        Library::PosthogNode => "posthog-node"@,
        Library::PosthogPython => "posthog-python"@,
        Library::PosthogPhp => "posthog-php"@,
        Library::PosthogRuby => "posthog-ruby"@,
        Library::PosthogGo => "posthog-go"@,
        Library::PosthogJava => "posthog-java"@,
        Library::PosthogDotnet => "posthog-dotnet"@,
        Library::PosthogElixir => "posthog-elixir"@,
        Library::PosthogAndroid => "posthog-android"@,
        Library::PosthogIos => "posthog-ios"@,
        Library::PosthogReactNative => "posthog-react-native"@,
        Library::PosthogFlutter => "posthog-flutter"@,
        Library::Other => "other"@,
    }
}

impl FlagRequestType {
    pub fn as_str(&self) -> (s: &'static str)
        ensures
            s@ == request_type_name(*self),
    {
        match self {
            FlagRequestType::Decide => "decide",
            FlagRequestType::FlagDefinitions => "flag_definitions",
        }
    }
}

impl Library {
    pub fn as_str(&self) -> (s: &'static str)
        ensures
            s@ == library_name(*self),
    {
        match self {
            Library::PosthogJs => "posthog-js",
            Library::PosthogNode => "posthog-node",
            Library::PosthogPython => "posthog-python",
            Library::PosthogPhp => "posthog-php",
            Library::PosthogRuby => "posthog-ruby",
            Library::PosthogGo => "posthog-go",
            Library::PosthogJava => "posthog-java",
            Library::PosthogDotnet => "posthog-dotnet",
            Library::PosthogElixir => "posthog-elixir",
            Library::PosthogAndroid => "posthog-android",
            Library::PosthogIos => "posthog-ios",
            Library::PosthogReactNative => "posthog-react-native",
            Library::PosthogFlutter => "posthog-flutter",
            Library::Other => "other",
        }
    }
}

/// The character of a decimal digit `d` (`0 <= d < 10`).
pub open spec fn digit_char(d: int) -> char {
    (d + 48) as char
}

/// Decimal representation of a natural number, most significant digit
/// first, without leading zeros.
pub open spec fn decimal_digits(n: nat) -> Seq<char>
    decreases n,
{
    if n < 10 {
        seq![digit_char(n as int)]
    } else {
        decimal_digits(n / 10) + seq![digit_char((n % 10) as int)]
    }
}

/// Decimal representation of an integer, with a leading `-` when negative.
pub open spec fn signed_decimal(n: int) -> Seq<char> {
    if n < 0 {
        seq!['-'] + decimal_digits((-n) as nat)
    } else {
        decimal_digits(n as nat)
    }
}

/// Formats an `i32` in decimal through its `Display` impl (`to_string`),
/// which std documents as the plain decimal form with a `-` sign for
/// negative values.
#[verifier::external_body]
fn i32_to_decimal(n: i32) -> (s: String)
    ensures
        s@ == signed_decimal(n as int),
{
    n.to_string()
}

/// Formats a `u64` in decimal through its `Display` impl (`to_string`),
/// which std documents as the plain decimal form.
#[verifier::external_body]
pub(crate) fn u64_to_decimal(n: u64) -> (s: String)
    ensures
        s@ == decimal_digits(n as nat),
{
    n.to_string()
}

/// The Redis hash that holds a team's request counters, one field per time
/// bucket.
pub open spec fn team_request_key_spec(team_id: i32, request_type: FlagRequestType) -> Seq<char> {
    match request_type {
        FlagRequestType::Decide => "posthog:decide_requests:"@ + signed_decimal(team_id as int),
        FlagRequestType::FlagDefinitions => "posthog:local_evaluation_requests:"@ + signed_decimal(
            team_id as int,
        ),
    }
}

/// The Redis hash that holds a team's request counters for one SDK library.
pub open spec fn team_request_library_key_spec(
    team_id: i32,
    request_type: FlagRequestType,
    library: Library,
) -> Seq<char> {
    match request_type {
        FlagRequestType::Decide => "posthog:decide_requests:sdk:"@ + signed_decimal(team_id as int)
            + ":"@ + library_name(library),
        FlagRequestType::FlagDefinitions => "posthog:local_evaluation_requests:sdk:"@
            + signed_decimal(team_id as int) + ":"@ + library_name(library),
    }
}

pub fn get_team_request_key(team_id: i32, request_type: FlagRequestType) -> (key: String)
    ensures
        key@ == team_request_key_spec(team_id, request_type),
{
    let prefix = match request_type {
        FlagRequestType::Decide => String::from_str("posthog:decide_requests:"),
        FlagRequestType::FlagDefinitions => String::from_str("posthog:local_evaluation_requests:"),
    };
    let team = i32_to_decimal(team_id);
    prefix.concat(team.as_str())
}

pub fn get_team_request_library_key(
    team_id: i32,
    request_type: FlagRequestType,
    library: Library,
) -> (key: String)
    ensures
        key@ == team_request_library_key_spec(team_id, request_type, library),
{
    let prefix = match request_type {
        FlagRequestType::Decide => String::from_str("posthog:decide_requests:sdk:"),
        FlagRequestType::FlagDefinitions => String::from_str(
            "posthog:local_evaluation_requests:sdk:",
        ),
    };
    let team = i32_to_decimal(team_id);
    let key = prefix.concat(team.as_str()).concat(":").concat(library.as_str());
    key
}

/// Metric labels that tag a batch of recorded requests with their type.
pub fn record_labels_for(request_type: FlagRequestType) -> (labels: Vec<(String, String)>)
    ensures
        labels@.len() == 1,
        labels@[0].0@ == "request_type"@,
        labels@[0].1@ == request_type_name(request_type),
{
    let mut labels: Vec<(String, String)> = Vec::new();
    labels.push((String::from_str("request_type"), String::from_str(request_type.as_str())));
    labels
}

} // verus!
