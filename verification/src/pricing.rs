//! The delivery providers that are compared, their fees and how their promo
//! codes count, and the stored form of a promo code.
use vstd::prelude::*;

use crate::text::{append_chars, chars_are, chars_of, split, split_char, string_of, views};

verus! {

/// A food delivery provider.
#[derive(PartialEq, Eq, Structural, Clone, Copy, Debug)]
pub enum Provider {
    Grab,
    Lineman,
    Robinhood,
    Shopee,
}

/// The providers in the order in which they are compared; on equal prices
/// the earlier one is the best.
pub open spec fn provider_order() -> Seq<Provider> {
    seq![Provider::Grab, Provider::Lineman, Provider::Robinhood, Provider::Shopee]
}

/// The providers in the order in which they are compared.
pub fn providers() -> (r: Vec<Provider>)
    ensures
        r@ == provider_order(),
{
    let r = vec![Provider::Grab, Provider::Lineman, Provider::Robinhood, Provider::Shopee];
    assert(r@ =~= provider_order());
    r
}

/// The key that names a provider in promo codes and replies.
pub open spec fn provider_key(p: Provider) -> Seq<char> {
    match p {
        Provider::Grab => "grab"@,
        Provider::Lineman => "lineman"@,
        Provider::Robinhood => "robinhood"@,
        Provider::Shopee => "shopee"@,
    }
}

/// The name under which a provider is shown.
pub open spec fn provider_name(p: Provider) -> Seq<char> {
    match p {
        Provider::Grab => "GrabFood"@,
        Provider::Lineman => "LINE MAN"@,
        Provider::Robinhood => "Robinhood"@,
        Provider::Shopee => "ShopeeFood"@,
    }
}

/// The fixed part of a provider's delivery fee; LINE MAN has none, its fee
/// is the distance charge alone.
pub open spec fn spec_base_fee(p: Provider) -> Option<u32> {
    match p {
        Provider::Grab => Some(10),
        Provider::Lineman => None,
        Provider::Robinhood => Some(20),
        Provider::Shopee => Some(10),
    }
}

/// What a provider charges for each kilometre of distance.
pub open spec fn spec_fee_per_km(p: Provider) -> u32 {
    match p {
        Provider::Grab => 8,
        Provider::Lineman => 12,
        Provider::Robinhood => 4,
        Provider::Shopee => 6,
    }
}

/// How much a promo code takes off.
#[derive(PartialEq, Eq, Structural, Clone, Copy, Debug)]
pub enum PromoRule {
    /// The discount that is stored with the code.
    Listed,
    /// A fixed amount, when the basket is worth at least `min_basket` (or
    /// always, when there is no minimum); otherwise the stored discount.
    Fixed { amount: u32, min_basket: Option<u32> },
}

/// How a provider counts one of its promo codes.
pub open spec fn spec_promo_rule(p: Provider, code: Seq<char>) -> PromoRule {
    match p {
        Provider::Grab => if code == "GRAB60"@ {
            PromoRule::Fixed { amount: 60, min_basket: Some(200) }
        } else {
            PromoRule::Listed
        },
        Provider::Lineman => if code == "LINEMANDEL"@ {
            PromoRule::Fixed { amount: 30, min_basket: None }
        } else {
            PromoRule::Listed
        },
        Provider::Robinhood => if code == "RBH40"@ {
            PromoRule::Fixed { amount: 40, min_basket: Some(180) }
        } else {
            PromoRule::Listed
        },
        Provider::Shopee => if code == "SHOPEE50"@ {
            PromoRule::Fixed { amount: 50, min_basket: Some(220) }
        } else {
            PromoRule::Listed
        },
    }
}

impl Provider {
    /// The key that names the provider.
    pub fn key(&self) -> (r: &'static str)
        ensures
            r@ == provider_key(*self),
    {
        match self {
            Provider::Grab => "grab",
            Provider::Lineman => "lineman",
            Provider::Robinhood => "robinhood",
            Provider::Shopee => "shopee",
        }
    }

    /// The name under which the provider is shown.
    pub fn name(&self) -> (r: &'static str)
        ensures
            r@ == provider_name(*self),
    {
        match self {
            Provider::Grab => "GrabFood",
            Provider::Lineman => "LINE MAN",
            Provider::Robinhood => "Robinhood",
            Provider::Shopee => "ShopeeFood",
        }
    }

    /// The fixed part of the delivery fee, if the provider has one.
    pub fn base_fee(&self) -> (r: Option<u32>)
        ensures
            r == spec_base_fee(*self),
    {
        match self {
            Provider::Grab => Some(10),
            Provider::Lineman => None,
            Provider::Robinhood => Some(20),
            Provider::Shopee => Some(10),
        }
    }

    /// The charge for each kilometre of distance.
    pub fn fee_per_km(&self) -> (r: u32)
        ensures
            r == spec_fee_per_km(*self),
    {
        match self {
            Provider::Grab => 8,
            Provider::Lineman => 12,
            Provider::Robinhood => 4,
            Provider::Shopee => 6,
        }
    }

    /// Whether the discount comes off the delivery fee alone (down to no
    /// fee) rather than off the whole order. Only LINE MAN does so.
    pub fn discounts_delivery_only(&self) -> (r: bool)
        ensures
            r == (*self == Provider::Lineman),
    {
        match self {
            Provider::Lineman => true,
            _ => false,
        }
    }

    /// Whether a promo code stored for `service` is one of this provider's.
    pub fn offers(&self, service: &str) -> (r: bool)
        ensures
            r == (service@ == provider_key(*self)),
    {
        let s = chars_of(service);
        chars_are(s.as_slice(), self.key())
    }

    /// How the provider counts its promo code `code`.
    pub fn promo_rule(&self, code: &str) -> (r: PromoRule)
        ensures
            r == spec_promo_rule(*self, code@),
    {
        let c = chars_of(code);
        match self {
            Provider::Grab => if chars_are(c.as_slice(), "GRAB60") {
                PromoRule::Fixed { amount: 60, min_basket: Some(200) }
            } else {
                PromoRule::Listed
            },
            Provider::Lineman => if chars_are(c.as_slice(), "LINEMANDEL") {
                PromoRule::Fixed { amount: 30, min_basket: None }
            } else {
                PromoRule::Listed
            },
            Provider::Robinhood => if chars_are(c.as_slice(), "RBH40") {
                PromoRule::Fixed { amount: 40, min_basket: Some(180) }
            } else {
                PromoRule::Listed
            },
            Provider::Shopee => if chars_are(c.as_slice(), "SHOPEE50") {
                PromoRule::Fixed { amount: 50, min_basket: Some(220) }
            } else {
                PromoRule::Listed
            },
        }
    }
}

/// A provider's delivery fee for a whole number of kilometres: the fixed
/// part, if any, and the charge per kilometre.
pub open spec fn delivery_fee(p: Provider, km: nat) -> nat {
    let base: nat = match spec_base_fee(p) {
        Some(b) => b as nat,
        None => 0,
    };
    base + spec_fee_per_km(p) as nat * km
}

/// The tariff: GrabFood charges 10 plus 8 a kilometre, LINE MAN 12 a
/// kilometre with no fixed part, Robinhood 20 plus 4 a kilometre, and
/// ShopeeFood 10 plus 6 a kilometre; only LINE MAN lacks a fixed part.
pub proof fn law_tariff(km: nat)
    ensures
        delivery_fee(Provider::Grab, km) == 10 + 8 * km,
        delivery_fee(Provider::Lineman, km) == 12 * km,
        delivery_fee(Provider::Robinhood, km) == 20 + 4 * km,
        delivery_fee(Provider::Shopee, km) == 10 + 6 * km,
        spec_base_fee(Provider::Grab) == Some(10u32),
        spec_base_fee(Provider::Lineman) is None,
        spec_base_fee(Provider::Robinhood) == Some(20u32),
        spec_base_fee(Provider::Shopee) == Some(10u32),
{
}

/// Each provider counts only its own promo code specially: GRAB60 takes 60
/// off a basket of at least 200, LINEMANDEL takes 30 off always, RBH40
/// takes 40 off a basket of at least 180, SHOPEE50 takes 50 off a basket of
/// at least 220; every other code counts at its stored discount.
pub proof fn law_promo_rules(code: Seq<char>)
    ensures
        spec_promo_rule(Provider::Grab, code) == (if code == "GRAB60"@ {
            PromoRule::Fixed { amount: 60, min_basket: Some(200) }
        } else {
            PromoRule::Listed
        }),
        spec_promo_rule(Provider::Lineman, code) == (if code == "LINEMANDEL"@ {
            PromoRule::Fixed { amount: 30, min_basket: None }
        } else {
            PromoRule::Listed
        }),
        spec_promo_rule(Provider::Robinhood, code) == (if code == "RBH40"@ {
            PromoRule::Fixed { amount: 40, min_basket: Some(180) }
        } else {
            PromoRule::Listed
        }),
        spec_promo_rule(Provider::Shopee, code) == (if code == "SHOPEE50"@ {
            PromoRule::Fixed { amount: 50, min_basket: Some(220) }
        } else {
            PromoRule::Listed
        }),
{
}

/// The providers are compared in the order GrabFood, LINE MAN, Robinhood,
/// ShopeeFood, under the keys `grab`, `lineman`, `robinhood`, `shopee`.
pub proof fn law_providers()
    ensures
        provider_order().len() == 4,
        provider_order()[0] == Provider::Grab && provider_key(provider_order()[0]) == "grab"@
            && provider_name(provider_order()[0]) == "GrabFood"@,
        provider_order()[1] == Provider::Lineman && provider_key(provider_order()[1])
            == "lineman"@ && provider_name(provider_order()[1]) == "LINE MAN"@,
        provider_order()[2] == Provider::Robinhood && provider_key(provider_order()[2])
            == "robinhood"@ && provider_name(provider_order()[2]) == "Robinhood"@,
        provider_order()[3] == Provider::Shopee && provider_key(provider_order()[3]) == "shopee"@
            && provider_name(provider_order()[3]) == "ShopeeFood"@,
{
}

// ---------------------------------------------------------------------------
// Stored promo codes
// ---------------------------------------------------------------------------
/// The fields of a stored promo code line, as text: the code, the service,
/// and the discount.
pub struct PromoRecord {
    pub code: String,
    pub service: String,
    pub discount: String,
}

/// The fields of a stored line: the pieces between `;`, when there are
/// exactly three.
pub open spec fn spec_record_fields(line: Seq<char>) -> Option<(Seq<char>, Seq<char>, Seq<char>)> {
    let parts = split(line, ';');
    if parts.len() == 3 {
        Some((parts[0], parts[1], parts[2]))
    } else {
        None
    }
}

/// The fields of a stored promo code line, when it has exactly three.
pub fn parse_record(line: &str) -> (r: Option<PromoRecord>)
    ensures
        match r {
            Some(rec) => spec_record_fields(line@) == Some((rec.code@, rec.service@, rec.discount@)),
            None => spec_record_fields(line@) is None,
        },
{
    let c = chars_of(line);
    let parts = split_char(c.as_slice(), ';');
    if parts.len() == 3 {
        assert(views(parts@)[0] == parts@[0]@);
        assert(views(parts@)[1] == parts@[1]@);
        assert(views(parts@)[2] == parts@[2]@);
        Some(
            PromoRecord {
                code: string_of(parts[0].as_slice()),
                service: string_of(parts[1].as_slice()),
                discount: string_of(parts[2].as_slice()),
            },
        )
    } else {
        None
    }
}

/// The line under which a promo code is stored: its fields joined with `;`,
/// then a newline.
pub open spec fn spec_record_line(code: Seq<char>, service: Seq<char>, discount: Seq<char>) -> Seq<
    char,
> {
    code + ";"@ + service + ";"@ + discount + "\n"@
}

/// The line under which a promo code is stored.
pub fn record_line(code: &str, service: &str, discount: &str) -> (r: String)
    ensures
        r@ == spec_record_line(code@, service@, discount@),
{
    let mut o = chars_of(code);
    append_chars(&mut o, chars_of(";").as_slice());
    append_chars(&mut o, chars_of(service).as_slice());
    append_chars(&mut o, chars_of(";").as_slice());
    append_chars(&mut o, chars_of(discount).as_slice());
    append_chars(&mut o, chars_of("\n").as_slice());
    string_of(o.as_slice())
}

/// A stored line, without its newline, reads back as the fields it was
/// made of, when none of them holds a `;`.
pub proof fn law_record_round_trip(code: Seq<char>, service: Seq<char>, discount: Seq<char>)
    requires
        !code.contains(';'),
        !service.contains(';'),
        !discount.contains(';'),
    ensures
        spec_record_fields(spec_record_line(code, service, discount).drop_last()) == Some(
            (code, service, discount),
        ),
{
    let s = code + ";"@ + service + ";"@ + discount;
    let line = spec_record_line(code, service, discount);
    assert(";"@ =~= seq![';']) by {
        reveal_strlit(";");
    }
    assert("\n"@ =~= seq!['\n']) by {
        reveal_strlit("\n");
    }
    assert(line.drop_last() =~= s);
    let n1 = code.len() as int;
    let n2 = n1 + 1 + service.len();
    let n = s.len() as int;
    assert forall|j: int| 0 <= j < n1 implies s[j] != ';' by {
        assert(s[j] == code[j]);
    }
    assert forall|j: int| n1 + 1 <= j < n2 implies s[j] != ';' by {
        assert(s[j] == service[j - n1 - 1]);
    }
    assert forall|j: int| n2 + 1 <= j < n implies s[j] != ';' by {
        assert(s[j] == discount[j - n2 - 1]);
    }
    assert(s[n1] == ';');
    assert(s[n2] == ';');
    crate::text::lemma_split_scan_skip(s, ';', 0, 0, n1);
    crate::text::lemma_split_scan_skip(s, ';', n1 + 1, n1 + 1, n2);
    crate::text::lemma_split_scan_skip(s, ';', n2 + 1, n2 + 1, n);
    assert(s.subrange(0, n1) =~= code);
    assert(s.subrange(n1 + 1, n2) =~= service);
    assert(s.subrange(n2 + 1, n) =~= discount);
    assert(split(s, ';') =~= seq![code, service, discount]);
}

} // verus!
