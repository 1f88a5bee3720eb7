//! Typed access to the metadata entries that the services read from a
//! request.

use std::collections::HashMap;

use vstd::prelude::*;

use crate::metadata::{metadata_lookup, RequestMetadata};
use crate::number::{
    decimal_text, is_decimal_digit, lemma_parse_i32_decimal_text, lemma_parse_i64_decimal_text,
    lemma_parse_u64_decimal_text, lemma_parse_u64_rejects_non_digit, lemma_parse_u64_too_large,
    parse_i32, parse_i64, parse_u64, signed_decimal_text, spec_parse_i32, spec_parse_i64,
    spec_parse_u64,
};
use crate::text::{
    join_seq, lemma_split_join, lemma_split_pieces_lack_separator, opt_str_view, split_once_str,
    split_seq, split_str, str_views,
};

verus! {

/// The kind of account that makes a request.
#[derive(Debug, Clone, Copy, PartialEq, Eq, Structural)]
pub enum BrokerType {
    Unknown,
    Trader,
    Broker,
}

/// The number that stands for each broker type (its discriminant).
pub open spec fn broker_type_number(b: BrokerType) -> i64 {
    match b {
        BrokerType::Unknown => 0,
        BrokerType::Trader => 1,
        BrokerType::Broker => 2,
    }
}

/// The broker type that a number stands for; a number that stands for none
/// of them gives `Unknown`.
pub open spec fn broker_type_of(v: i64) -> BrokerType {
    if v == 1 {
        BrokerType::Trader
    } else if v == 2 {
        BrokerType::Broker
    } else {
        BrokerType::Unknown
    }
}

impl vstd::std_specs::convert::FromSpecImpl<i64> for BrokerType {
    open spec fn obeys_from_spec() -> bool {
        true
    }

    open spec fn from_spec(v: i64) -> Self {
        broker_type_of(v)
    }
}

impl From<i64> for BrokerType {
    fn from(v: i64) -> (r: Self) {
        if v == 1 {
            BrokerType::Trader
        } else if v == 2 {
            BrokerType::Broker
        } else {
            BrokerType::Unknown
        }
    }
}

/// A broker type converted to its number and back is the same broker type.
pub proof fn lemma_broker_type_number_roundtrip(b: BrokerType)
    ensures
        broker_type_of(broker_type_number(b)) == b,
{
}

/// An optional text read as a `u64`.
pub open spec fn parsed_u64(text: Option<Seq<char>>) -> Option<u64> {
    match text {
        Some(s) => spec_parse_u64(s),
        None => None,
    }
}

/// An optional text read as an `i32`.
pub open spec fn parsed_i32(text: Option<Seq<char>>) -> Option<i32> {
    match text {
        Some(s) => spec_parse_i32(s),
        None => None,
    }
}

/// An optional text read as a broker type: absent where the text is absent
/// or is not an `i64`.
pub open spec fn parsed_broker_type(text: Option<Seq<char>>) -> Option<BrokerType> {
    match text {
        Some(s) => match spec_parse_i64(s) {
            Some(v) => Some(broker_type_of(v)),
            None => None,
        },
        None => None,
    }
}

/// The pieces of an optional text split at `','`; none where it is absent.
pub open spec fn feature_list(text: Option<Seq<char>>) -> Seq<Seq<char>> {
    match text {
        Some(s) => split_seq(s, ','),
        None => Seq::<Seq<char>>::empty(),
    }
}

/// The features of an `x-features` entry, joined again with commas, give
/// back the entry.
pub proof fn lemma_features_rejoin(text: Seq<char>)
    ensures
        join_seq(feature_list(Some(text)), ',') == text,
{
    lemma_split_join(text, ',');
}

/// The features are the pieces of the `x-features` entry between commas:
/// none holds a `','`, and joined again with commas they give back the
/// entry; a request without the entry has no features.
pub proof fn lemma_features_split_at_commas(text: Seq<char>)
    ensures
        forall|i: int|
            0 <= i < feature_list(Some(text)).len() ==> !(#[trigger] feature_list(
                Some(text),
            )[i]).contains(','),
        join_seq(feature_list(Some(text)), ',') == text,
        feature_list(None) == Seq::<Seq<char>>::empty(),
{
    lemma_split_pieces_lack_separator(text, ',');
    lemma_split_join(text, ',');
}

/// A `u64` entry (such as `member-id`) holding any `u64` in decimal, with or
/// without a leading `+`, reads as that number, whatever its length; an
/// absent entry reads as nothing.
pub proof fn lemma_u64_entry_reads_decimal(n: u64)
    ensures
        parsed_u64(Some(decimal_text(n as nat))) == Some(n),
        parsed_u64(Some(seq!['+'] + decimal_text(n as nat))) == Some(n),
        parsed_u64(None) is None,
{
    lemma_parse_u64_decimal_text(n);
}

/// A `u64` entry holding a character that is not a digit (other than a
/// leading `+`), or a number above `u64::MAX`, reads as nothing.
pub proof fn lemma_u64_entry_rejects(s: Seq<char>, i: int, big: nat)
    requires
        0 <= i < s.len(),
        !is_decimal_digit(s[i]),
        !(i == 0 && s[0] == '+'),
        big > u64::MAX,
    ensures
        parsed_u64(Some(s)) is None,
        parsed_u64(Some(decimal_text(big))) is None,
{
    lemma_parse_u64_rejects_non_digit(s, i);
    lemma_parse_u64_too_large(big);
}

/// A `base-level` entry holding any `i32` in decimal reads as that number.
pub proof fn lemma_i32_entry_reads_decimal(v: i32)
    ensures
        parsed_i32(Some(signed_decimal_text(v as int))) == Some(v),
{
    lemma_parse_i32_decimal_text(v);
}

/// A `broker-type` entry holding any `i64` in decimal reads as `Trader` for
/// 1, `Broker` for 2 and `Unknown` for every other number.
pub proof fn lemma_broker_type_entry(v: i64)
    ensures
        parsed_broker_type(Some(signed_decimal_text(v as int))) == Some(
            if v == 1 {
                BrokerType::Trader
            } else if v == 2 {
                BrokerType::Broker
            } else {
                BrokerType::Unknown
            },
        ),
{
    lemma_parse_i64_decimal_text(v);
}

fn parse_u64_entry(value: Option<&str>) -> (r: Option<u64>)
    ensures
        r == parsed_u64(opt_str_view(value)),
{
    match value {
        Some(v) => parse_u64(v),
        None => None,
    }
}

/// Typed readers of the request metadata that the services use.
pub trait RequestExt {
    /// The `app-id` metadata entry.
    fn app_id(&self) -> Option<&str>;
    /// The `x-platform` metadata entry.
    fn platform(&self) -> Option<&str>;
    /// The `member-id` metadata entry read as a `u64`.
    fn member_id(&self) -> Option<u64>;
    /// The `accept-language` metadata entry.
    fn accept_language(&self) -> Option<&str>;
    /// The `x-prefer-language` metadata entry.
    fn prefer_language(&self) -> Option<&str>;
    /// The `admin-id` metadata entry read as a `u64`.
    fn admin_id(&self) -> Option<u64>;
    /// The `x-cluster` metadata entry.
    fn cluster(&self) -> Option<&str>;
    /// The `x-from-cluster` metadata entry.
    fn from_cluster(&self) -> Option<&str>;
    /// The `base-level` metadata entry read as an `i32`.
    fn base_level(&self) -> Option<i32>;
    /// The `ip-region` metadata entry.
    fn ip_region(&self) -> Option<&str>;
    /// The `user-region` metadata entry.
    fn user_region(&self) -> Option<&str>;
    /// The `x-user-agent` metadata entry.
    fn user_agent(&self) -> Option<&str>;
    /// The `x-application-version` metadata entry.
    fn application_version(&self) -> Option<&str>;
    /// The `x-application-build` metadata entry.
    fn application_build(&self) -> Option<&str>;
    /// The `x-bundle-id` metadata entry.
    fn bundle_id(&self) -> Option<&str>;
    /// The `x-device-id` metadata entry.
    fn device_id(&self) -> Option<&str>;
    /// The `x-device-name` metadata entry.
    fn device_name(&self) -> Option<&str>;
    /// The `x-device-model` metadata entry.
    fn device_model(&self) -> Option<&str>;
    /// The `op-member-id` metadata entry read as a `u64`, or else the
    /// member id.
    fn op_member_id(&self) -> Option<u64>;
    /// The `org-id` metadata entry read as a `u64`.
    fn organization_id(&self) -> Option<u64>;
    /// The `x-target-org-id` metadata entry read as a `u64`.
    fn target_organization_id(&self) -> Option<u64>;
    /// The `target-aaid` metadata entry read as a `u64`.
    fn target_aaid(&self) -> Option<u64>;
    /// The `x-email` metadata entry.
    fn email(&self) -> Option<&str>;
    /// The `account-channel` metadata entry.
    fn account_channel(&self) -> Option<&str>;
    /// The `x-real-ip` metadata entry.
    fn real_ip(&self) -> Option<&str>;

    /// The market levels listed in the `market-levels` entry.
    fn market_levels(&self) -> HashMap<&str, Vec<&str>>;

    /// The features listed, separated by commas, in the `x-features` entry.
    fn features(&self) -> Vec<&str>;

    /// The `broker-type` entry read as an `i64` and mapped to a broker type.
    fn broker_type(&self) -> Option<BrokerType>;
}

impl RequestExt for RequestMetadata {
    fn app_id(&self) -> (r: Option<&str>)
        ensures
            opt_str_view(r) == metadata_lookup(self@, "app-id"@),
    {
        self.get("app-id")
    }

    fn platform(&self) -> (r: Option<&str>)
        ensures
            opt_str_view(r) == metadata_lookup(self@, "x-platform"@),
    {
        self.get("x-platform")
    }

    fn member_id(&self) -> (r: Option<u64>)
        ensures
            r == parsed_u64(metadata_lookup(self@, "member-id"@)),
    {
        parse_u64_entry(self.get("member-id"))
    }

    fn accept_language(&self) -> (r: Option<&str>)
        ensures
            opt_str_view(r) == metadata_lookup(self@, "accept-language"@),
    {
        self.get("accept-language")
    }

    fn prefer_language(&self) -> (r: Option<&str>)
        ensures
            opt_str_view(r) == metadata_lookup(self@, "x-prefer-language"@),
    {
        self.get("x-prefer-language")
    }

    fn admin_id(&self) -> (r: Option<u64>)
        ensures
            r == parsed_u64(metadata_lookup(self@, "admin-id"@)),
    {
        parse_u64_entry(self.get("admin-id"))
    }

    fn cluster(&self) -> (r: Option<&str>)
        ensures
            opt_str_view(r) == metadata_lookup(self@, "x-cluster"@),
    {
        self.get("x-cluster")
    }

    fn from_cluster(&self) -> (r: Option<&str>)
        ensures
            opt_str_view(r) == metadata_lookup(self@, "x-from-cluster"@),
    {
        self.get("x-from-cluster")
    }

    fn base_level(&self) -> (r: Option<i32>)
        ensures
            r == parsed_i32(metadata_lookup(self@, "base-level"@)),
    {
        match self.get("base-level") {
            Some(value) => parse_i32(value),
            None => None,
        }
    }

    fn ip_region(&self) -> (r: Option<&str>)
        ensures
            opt_str_view(r) == metadata_lookup(self@, "ip-region"@),
    {
        self.get("ip-region")
    }

    fn user_region(&self) -> (r: Option<&str>)
        ensures
            opt_str_view(r) == metadata_lookup(self@, "user-region"@),
    {
        self.get("user-region")
    }

    fn user_agent(&self) -> (r: Option<&str>)
        ensures
            opt_str_view(r) == metadata_lookup(self@, "x-user-agent"@),
    {
        self.get("x-user-agent")
    }

    fn application_version(&self) -> (r: Option<&str>)
        ensures
            opt_str_view(r) == metadata_lookup(self@, "x-application-version"@),
    {
        self.get("x-application-version")
    }

    fn application_build(&self) -> (r: Option<&str>)
        ensures
            opt_str_view(r) == metadata_lookup(self@, "x-application-build"@),
    {
        self.get("x-application-build")
    }

    fn bundle_id(&self) -> (r: Option<&str>)
        ensures
            opt_str_view(r) == metadata_lookup(self@, "x-bundle-id"@),
    {
        self.get("x-bundle-id")
    }

    fn device_id(&self) -> (r: Option<&str>)
        ensures
            opt_str_view(r) == metadata_lookup(self@, "x-device-id"@),
    {
        self.get("x-device-id")
    }

    fn device_name(&self) -> (r: Option<&str>)
        ensures
            opt_str_view(r) == metadata_lookup(self@, "x-device-name"@),
    {
        self.get("x-device-name")
    }

    fn device_model(&self) -> (r: Option<&str>)
        ensures
            opt_str_view(r) == metadata_lookup(self@, "x-device-model"@),
    {
        self.get("x-device-model")
    }

    fn op_member_id(&self) -> (r: Option<u64>)
        ensures
            r == match parsed_u64(metadata_lookup(self@, "op-member-id"@)) {
                Some(id) => Some(id),
                None => parsed_u64(metadata_lookup(self@, "member-id"@)),
            },
    {
        match parse_u64_entry(self.get("op-member-id")) {
            Some(id) => Some(id),
            None => self.member_id(),
        }
    }

    fn organization_id(&self) -> (r: Option<u64>)
        ensures
            r == parsed_u64(metadata_lookup(self@, "org-id"@)),
    {
        parse_u64_entry(self.get("org-id"))
    }

    fn target_organization_id(&self) -> (r: Option<u64>)
        ensures
            r == parsed_u64(metadata_lookup(self@, "x-target-org-id"@)),
    {
        parse_u64_entry(self.get("x-target-org-id"))
    }

    fn target_aaid(&self) -> (r: Option<u64>)
        ensures
            r == parsed_u64(metadata_lookup(self@, "target-aaid"@)),
    {
        parse_u64_entry(self.get("target-aaid"))
    }

    fn email(&self) -> (r: Option<&str>)
        ensures
            opt_str_view(r) == metadata_lookup(self@, "x-email"@),
    {
        self.get("x-email")
    }

    fn account_channel(&self) -> (r: Option<&str>)
        ensures
            opt_str_view(r) == metadata_lookup(self@, "account-channel"@),
    {
        self.get("account-channel")
    }

    fn real_ip(&self) -> (r: Option<&str>)
        ensures
            opt_str_view(r) == metadata_lookup(self@, "x-real-ip"@),
    {
        self.get("x-real-ip")
    }

    /// The `market-levels` entry is split at `';'` and each piece split once
    /// more at its first `';'` into a market and its levels; since no piece
    /// of the first split holds a `';'`, no market is ever recorded.
    fn market_levels(&self) -> (levels: HashMap<&str, Vec<&str>>)
        ensures
            levels@ == Map::<&str, Vec<&str>>::empty(),
    {
        let mut levels: HashMap<&str, Vec<&str>> = HashMap::new();
        if let Some(parts) = self.get("market-levels") {
            let kvs = split_str(parts, ';');
            proof {
                lemma_split_pieces_lack_separator(parts@, ';');
            }
            let n = kvs.len();
            let mut i: usize = 0;
            while i < n
                invariant
                    n == kvs@.len(),
                    i <= n,
                    str_views(kvs@) == split_seq(parts@, ';'),
                    forall|j: int|
                        0 <= j < split_seq(parts@, ';').len() ==> !(#[trigger] split_seq(
                            parts@,
                            ';',
                        )[j]).contains(';'),
                    levels@ == Map::<&str, Vec<&str>>::empty(),
                decreases n - i,
            {
                let kv = kvs[i];
                assert(str_views(kvs@)[i as int] == kv@);
                if let Some((key, values)) = split_once_str(kv, ';') {
                    levels.insert(key, split_str(values, ','));
                }
                i = i + 1;
            }
        }
        levels
    }

    fn features(&self) -> (r: Vec<&str>)
        ensures
            str_views(r@) == feature_list(metadata_lookup(self@, "x-features"@)),
    {
        match self.get("x-features") {
            Some(value) => split_str(value, ','),
            None => {
                let r: Vec<&str> = Vec::new();
                assert(str_views(r@) =~= Seq::<Seq<char>>::empty());
                r
            },
        }
    }

    fn broker_type(&self) -> (r: Option<BrokerType>)
        ensures
            r == parsed_broker_type(metadata_lookup(self@, "broker-type"@)),
    {
        match self.get("broker-type") {
            Some(value) => match parse_i64(value) {
                Some(v) => Some(BrokerType::from(v)),
                None => None,
            },
            None => None,
        }
    }
}

} // verus!
