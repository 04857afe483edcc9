//! Storage tiers: the performance/cost class of a pool, and how S3 storage
//! classes and configuration names map to them.
use vstd::prelude::*;
use vstd::utf8::is_ascii_chars;
use crate::text::{
    ascii_lower, ascii_upper, lower_case, push_str, str_eq, to_lower, to_upper,
    upper_case,
};

verus! {

/// The performance/cost class of a storage pool.
#[derive(Debug, Clone, Copy, PartialEq, Eq, Structural, Hash)]
pub enum StorageTier {
    Hot,
    Warm,
    Cold,
}

/// The tier of an S3 storage class name, given in upper case: the
/// frequent-access classes are hot, `GLACIER_IR` and `DEEP_ARCHIVE_IA` warm,
/// the archive classes cold, and anything else hot.
pub open spec fn class_tier(upper: Seq<char>) -> StorageTier {
    if upper == "STANDARD"@ || upper == "STANDARD_IA"@ || upper == "REDUCED_REDUNDANCY"@
        || upper == "INTELLIGENT_TIERING"@ || upper == "ONEZONE_IA"@ || upper == "EXPRESS_ONEZONE"@ {
        StorageTier::Hot
    } else if upper == "GLACIER_IR"@ || upper == "DEEP_ARCHIVE_IA"@ {
        StorageTier::Warm
    } else if upper == "GLACIER"@ || upper == "DEEP_ARCHIVE"@ || upper == "SNOW"@ {
        StorageTier::Cold
    } else {
        StorageTier::Hot
    }
}

/// The S3 storage class name a tier is reported under.
pub open spec fn class_name(t: StorageTier) -> Seq<char> {
    match t {
        StorageTier::Hot => "STANDARD"@,
        StorageTier::Warm => "GLACIER_IR"@,
        StorageTier::Cold => "GLACIER"@,
    }
}

/// The tier of a configuration name, given in lower case; anything
/// unknown is hot.
pub open spec fn config_tier(lower: Seq<char>) -> StorageTier {
    if lower == "hot"@ {
        StorageTier::Hot
    } else if lower == "warm"@ {
        StorageTier::Warm
    } else if lower == "cold"@ {
        StorageTier::Cold
    } else {
        StorageTier::Hot
    }
}

/// The name a tier is displayed under.
pub open spec fn tier_name(t: StorageTier) -> Seq<char> {
    match t {
        StorageTier::Hot => "HOT"@,
        StorageTier::Warm => "WARM"@,
        StorageTier::Cold => "COLD"@,
    }
}

/// The tier a displayed name, given in upper case, stands for.
pub open spec fn named_tier(upper: Seq<char>) -> Option<StorageTier> {
    if upper == "HOT"@ {
        Some(StorageTier::Hot)
    } else if upper == "WARM"@ {
        Some(StorageTier::Warm)
    } else if upper == "COLD"@ {
        Some(StorageTier::Cold)
    } else {
        None
    }
}

impl StorageTier {
    /// The tier of an S3 storage class name already in upper case.
    pub fn from_upper_storage_class(upper: &str) -> (r: Self)
        ensures
            r == class_tier(upper@),
    {
        if str_eq(upper, "STANDARD") || str_eq(upper, "STANDARD_IA") || str_eq(upper, "REDUCED_REDUNDANCY")
            || str_eq(upper, "INTELLIGENT_TIERING") || str_eq(upper, "ONEZONE_IA") || str_eq(upper, "EXPRESS_ONEZONE") {
            StorageTier::Hot
        } else if str_eq(upper, "GLACIER_IR") || str_eq(upper, "DEEP_ARCHIVE_IA") {
            StorageTier::Warm
        } else if str_eq(upper, "GLACIER") || str_eq(upper, "DEEP_ARCHIVE") || str_eq(upper, "SNOW") {
            StorageTier::Cold
        } else {
            StorageTier::Hot
        }
    }

    /// The tier of an S3 storage class header (case-insensitive).
    pub fn from_s3_storage_class(class: &str) -> (r: Self)
        ensures
            r == class_tier(upper_case(class@)),
            is_ascii_chars(class@) ==> r == class_tier(ascii_upper(class@)),
    {
        let upper = to_upper(class);
        Self::from_upper_storage_class(upper.as_str())
    }

    /// The S3 storage class name of the tier.
    pub fn to_s3_storage_class(self) -> (r: &'static str)
        ensures
            r@ == class_name(self),
    {
        match self {
            StorageTier::Hot => "STANDARD",
            StorageTier::Warm => "GLACIER_IR",
            StorageTier::Cold => "GLACIER",
        }
    }

    /// The tier of a configuration name already in lower case.
    pub fn from_lower_name(lower: &str) -> (r: Self)
        ensures
            r == config_tier(lower@),
    {
        if str_eq(lower, "hot") {
            StorageTier::Hot
        } else if str_eq(lower, "warm") {
            StorageTier::Warm
        } else if str_eq(lower, "cold") {
            StorageTier::Cold
        } else {
            StorageTier::Hot
        }
    }

    /// The tier of a configuration name (case-insensitive); unknown names are hot.
    pub fn from_str_lower(s: &str) -> (r: Self)
        ensures
            r == config_tier(lower_case(s@)),
            is_ascii_chars(s@) ==> r == config_tier(ascii_lower(s@)),
    {
        let lower = to_lower(s);
        Self::from_lower_name(lower.as_str())
    }

    /// The name the tier is displayed under.
    pub fn name(self) -> (r: &'static str)
        ensures
            r@ == tier_name(self),
    {
        match self {
            StorageTier::Hot => "HOT",
            StorageTier::Warm => "WARM",
            StorageTier::Cold => "COLD",
        }
    }

    /// The name the tier is displayed under, as a `String`.
    pub fn to_string(self) -> (r: String)
        ensures
            r@ == tier_name(self),
    {
        let mut s = String::new();
        push_str(&mut s, self.name());
        s
    }

    /// Parses a displayed tier name (case-insensitive).
    ///
    /// Fails with the message `Unknown storage tier: <name>` for other names.
    pub fn parse(s: &str) -> (r: Result<Self, String>)
        ensures
            match named_tier(upper_case(s@)) {
                Some(t) => r == Ok::<StorageTier, String>(t),
                None => r matches Err(m) && m@ == "Unknown storage tier: "@ + s@,
            },
            is_ascii_chars(s@) ==> named_tier(ascii_upper(s@)) == named_tier(upper_case(s@)),
    {
        let upper = to_upper(s);
        if str_eq(upper.as_str(), "HOT") {
            Ok(StorageTier::Hot)
        } else if str_eq(upper.as_str(), "WARM") {
            Ok(StorageTier::Warm)
        } else if str_eq(upper.as_str(), "COLD") {
            Ok(StorageTier::Cold)
        } else {
            let mut m = String::new();
            push_str(&mut m, "Unknown storage tier: ");
            push_str(&mut m, s);
            Err(m)
        }
    }
}

impl std::str::FromStr for StorageTier {
    type Err = String;

    /// Parses a displayed tier name (case-insensitive), as `parse` does.
    fn from_str(s: &str) -> (r: Result<Self, Self::Err>)
        ensures
            match named_tier(upper_case(s@)) {
                Some(t) => r == Ok::<StorageTier, String>(t),
                None => r matches Err(m) && m@ == "Unknown storage tier: "@ + s@,
            },
    {
        Self::parse(s)
    }
}

/// A tier's storage class name maps back to the tier:
/// `from_s3_storage_class(to_s3_storage_class(t)) == t`.
pub proof fn law_storage_class_round_trip(t: StorageTier)
    ensures
        is_ascii_chars(class_name(t)),
        class_tier(ascii_upper(class_name(t))) == t,
{
    reveal_strlit("STANDARD");
    reveal_strlit("STANDARD_IA");
    reveal_strlit("REDUCED_REDUNDANCY");
    reveal_strlit("INTELLIGENT_TIERING");
    reveal_strlit("ONEZONE_IA");
    reveal_strlit("EXPRESS_ONEZONE");
    reveal_strlit("GLACIER_IR");
    reveal_strlit("DEEP_ARCHIVE_IA");
    reveal_strlit("GLACIER");
    reveal_strlit("DEEP_ARCHIVE");
    reveal_strlit("SNOW");
    assert(ascii_upper(class_name(t)) =~= class_name(t));
    if t == StorageTier::Cold {
        let g = "GLACIER"@;
        assert(g != "STANDARD"@ && g != "STANDARD_IA"@ && g != "REDUCED_REDUNDANCY"@);
        assert(g != "INTELLIGENT_TIERING"@ && g != "ONEZONE_IA"@ && g != "EXPRESS_ONEZONE"@);
        assert(g != "GLACIER_IR"@ && g != "DEEP_ARCHIVE_IA"@);
    }
    if t == StorageTier::Warm {
        let g = "GLACIER_IR"@;
        assert(g[0] != "ONEZONE_IA"@[0]);
        assert(g != "STANDARD"@ && g != "STANDARD_IA"@ && g != "REDUCED_REDUNDANCY"@);
        assert(g != "INTELLIGENT_TIERING"@ && g != "ONEZONE_IA"@ && g != "EXPRESS_ONEZONE"@);
    }
}

/// A tier's displayed name parses back to the tier, and its lower-case form
/// names the same tier in the configuration.
pub proof fn law_tier_name_round_trip(t: StorageTier)
    ensures
        is_ascii_chars(tier_name(t)),
        named_tier(ascii_upper(tier_name(t))) == Some(t),
        config_tier(ascii_lower(tier_name(t))) == t,
{
    reveal_strlit("HOT");
    reveal_strlit("WARM");
    reveal_strlit("COLD");
    reveal_strlit("hot");
    reveal_strlit("warm");
    reveal_strlit("cold");
    assert(ascii_upper(tier_name(t)) =~= tier_name(t));
    match t {
        StorageTier::Hot => {
            assert(ascii_lower(tier_name(t)) =~= "hot"@);
        },
        StorageTier::Warm => {
            assert(ascii_lower(tier_name(t)) =~= "warm"@);
            assert("WARM"@ != "HOT"@);
            assert("warm"@ != "hot"@);
        },
        StorageTier::Cold => {
            assert(ascii_lower(tier_name(t)) =~= "cold"@);
            assert("COLD"@ != "HOT"@);
            assert("COLD"@[0] != "WARM"@[0]);
            assert("cold"@ != "hot"@);
            assert("cold"@[0] != "warm"@[0]);
        },
    }
}

} // verus!
