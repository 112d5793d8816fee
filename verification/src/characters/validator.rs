//! Which version of the card format a card keeps to.

use crate::json;
use crate::json::{Json, Tree};
use crate::numbers;
use crate::text;
use vstd::prelude::*;

verus! {

/// Finds out which version of the card format a card keeps to.
pub struct TavernCardValidator<'a> {
    card: &'a Json,
    /// The number that the card's `spec_version` is, where it is a text that is a number.
    version: Option<u64>,
    last_error: Option<String>,
}

/// The members that a card of the first version has.
pub open spec fn v1_fields() -> Seq<Seq<char>> {
    seq![
        "name"@,
        "description"@,
        "personality"@,
        "scenario"@,
        "first_mes"@,
        "mes_example"@,
    ]
}

/// The members that the data of a card of the second version has.
pub open spec fn v2_fields() -> Seq<Seq<char>> {
    seq![
        "name"@,
        "description"@,
        "personality"@,
        "scenario"@,
        "first_mes"@,
        "mes_example"@,
        "creator_notes"@,
        "system_prompt"@,
        "post_history_instructions"@,
        "alternate_greetings"@,
        "tags"@,
        "creator"@,
        "character_version"@,
        "extensions"@,
    ]
}

/// The members that a character book has.
pub open spec fn book_fields() -> Seq<Seq<char>> {
    seq!["extensions"@, "entries"@]
}

/// The position of the first of `fields[i..]` that `t` lacks; the number of fields where
/// it lacks none.
pub open spec fn first_missing(t: Tree, fields: Seq<Seq<char>>, i: int) -> int
    decreases fields.len() - i,
{
    if i >= fields.len() {
        fields.len() as int
    } else if t.get(fields[i]) is None {
        i
    } else {
        first_missing(t, fields, i + 1)
    }
}

/// Whether `t` has every one of the fields.
pub open spec fn complete(t: Tree, fields: Seq<Seq<char>>) -> bool {
    first_missing(t, fields, 0) == fields.len()
}

/// Whether the fields are all there, and the one to blame: `prefix` and the name of the
/// first that is missing, or what was to blame before.
pub open spec fn fields_verdict(
    t: Tree,
    fields: Seq<Seq<char>>,
    prefix: Seq<char>,
    before: Option<Seq<char>>,
) -> (bool, Option<Seq<char>>) {
    let p = first_missing(t, fields, 0);
    if p < fields.len() {
        (false, Some(prefix + fields[p]))
    } else {
        (true, before)
    }
}

/// Whether the character book of the data `d` is sound, and what is to blame.
pub open spec fn book_verdict(d: Tree, before: Option<Seq<char>>) -> (bool, Option<Seq<char>>) {
    match d.get("character_book"@) {
        Some(book) => {
            let v = fields_verdict(book, book_fields(), "data.character_book."@, before);
            (
                v.0 && book.items_at("entries"@) is Some && (match book.get("extensions"@) {
                    Some(e) => e.as_fields() is Some,
                    None => false,
                }),
                v.1,
            )
        },
        None => (true, before),
    }
}

/// Whether the data `d` of a card of the second version is sound, and what is to blame.
pub open spec fn data_verdict(d: Tree, before: Option<Seq<char>>) -> (bool, Option<Seq<char>>) {
    let v = fields_verdict(d, v2_fields(), "data."@, before);
    if !v.0 {
        v
    } else if d.items_at("alternate_greetings"@) is None || d.items_at("tags"@) is None
        || !(d.get("extensions"@) matches Some(Tree::Object(_))) {
        (false, before)
    } else {
        book_verdict(d, before)
    }
}

/// Whether the card is of the second version, and what is to blame.
pub open spec fn v2_verdict(card: Tree, before: Option<Seq<char>>) -> (bool, Option<Seq<char>>) {
    if card.text_at("spec"@) != Some("chara_card_v2"@) {
        (false, Some("spec"@))
    } else if card.text_at("spec_version"@) != Some("2.0"@) {
        (false, Some("spec_version"@))
    } else {
        match card.get("data"@) {
            Some(d) => data_verdict(d, before),
            None => (false, Some("No tavern card data found"@)),
        }
    }
}

/// The number that the card gives as its version.
pub open spec fn version_of(card: Tree, parsed: Option<u64>) -> Option<u64> {
    match card.get("spec_version"@) {
        Some(t) => match numbers::double_value(t) {
            Some(b) => Some(b),
            None => if t is Text {
                parsed
            } else {
                None
            },
        },
        None => None,
    }
}

/// Whether a version is refused: one below three is, and one that is a number from four on.
pub open spec fn version_refused(version: Option<u64>) -> bool {
    match version {
        Some(b) => numbers::less(b, numbers::THREE) || (numbers::is_number(b) && !numbers::less(
            b,
            numbers::FOUR,
        )),
        None => false,
    }
}

/// Whether the card is of the third version, and what is to blame.
pub open spec fn v3_verdict(
    card: Tree,
    parsed: Option<u64>,
    before: Option<Seq<char>>,
) -> (bool, Option<Seq<char>>) {
    if card.text_at("spec"@) != Some("chara_card_v3"@) {
        (false, Some("spec"@))
    } else if version_refused(version_of(card, parsed)) {
        (false, Some("spec_version"@))
    } else if card.get("data"@) matches Some(Tree::Object(_)) {
        (true, before)
    } else {
        (false, Some("No tavern card data found"@))
    }
}

/// The version that the card keeps to, and what is to blame.
pub open spec fn verdict(card: Tree, parsed: Option<u64>) -> (Option<u8>, Option<Seq<char>>) {
    let one = fields_verdict(card, v1_fields(), ""@, None);
    let two = v2_verdict(card, one.1);
    let three = v3_verdict(card, parsed, two.1);
    if one.0 {
        (Some(1u8), one.1)
    } else if two.0 {
        (Some(2u8), two.1)
    } else if three.0 {
        (Some(3u8), three.1)
    } else {
        (None, three.1)
    }
}

/// The position of the first of the fields that `t` lacks.
fn find_missing(t: &Json, fields: &[&str]) -> (r: usize)
    ensures
        r == first_missing(t@, crate::characters::helpers::slices(fields@), 0),
        r <= fields@.len(),
{
    let ghost all = crate::characters::helpers::slices(fields@);
    let mut i: usize = 0;
    while i < fields.len()
        invariant
            all == crate::characters::helpers::slices(fields@),
            i <= fields@.len(),
            first_missing(t@, all, 0) == first_missing(t@, all, i as int),
        decreases fields@.len() - i,
    {
        assert(all[i as int] == fields@[i as int]@);
        if t.get(fields[i]).is_none() {
            return i;
        }
        i += 1;
    }
    i
}

impl<'a> TavernCardValidator<'a> {
    /// The card that is looked at.
    pub closed spec fn subject(&self) -> Tree {
        self.card@
    }

    /// The number that the text of the card's version is.
    pub closed spec fn parsed_version(&self) -> Option<u64> {
        self.version
    }

    /// What is to blame.
    pub closed spec fn error(&self) -> Option<Seq<char>> {
        match self.last_error {
            Some(s) => Some(s@),
            None => None,
        }
    }

    /// A validator for `card`. `version` is the number that the text of its `spec_version`
    /// is, by its bits.
    pub fn new(card: &'a Json, version: Option<u64>) -> (r: Self)
        ensures
            r.subject() == card@,
            r.parsed_version() == version,
            r.error() is None,
    {
        TavernCardValidator { card, version, last_error: None }
    }

    /// What is to blame for the last version that was refused.
    pub fn last_error(&self) -> (r: Option<&str>)
        ensures
            json::text_opt(r) == self.error(),
    {
        match &self.last_error {
            Some(s) => Some(s.as_str()),
            None => None,
        }
    }

    /// The version that the card keeps to: one, two or three.
    pub fn validate(&mut self) -> (r: Option<u8>)
        ensures
            final(self).subject() == old(self).subject(),
            final(self).parsed_version() == old(self).parsed_version(),
            (r, final(self).error()) == verdict(old(self).subject(), old(self).parsed_version()),
    {
        self.last_error = None;
        if self.validate_v1() {
            return Some(1);
        }
        if self.validate_v2() {
            return Some(2);
        }
        if self.validate_v3() {
            return Some(3);
        }
        None
    }

    fn validate_v1(&mut self) -> (r: bool)
        ensures
            final(self).subject() == old(self).subject(),
            final(self).parsed_version() == old(self).parsed_version(),
            (r, final(self).error()) == fields_verdict(
                old(self).subject(),
                v1_fields(),
                ""@,
                old(self).error(),
            ),
    {
        let required = ["name", "description", "personality", "scenario", "first_mes", "mes_example"];
        assert(crate::characters::helpers::slices(required@) =~= v1_fields());
        let p = find_missing(self.card, &required);
        if p < 6 {
            proof {
                reveal_strlit("");
                assert(""@ + v1_fields()[p as int] =~= v1_fields()[p as int]);
            }
            self.last_error = Some(required[p].to_owned());
            return false;
        }
        true
    }

    fn validate_v2(&mut self) -> (r: bool)
        ensures
            final(self).subject() == old(self).subject(),
            final(self).parsed_version() == old(self).parsed_version(),
            (r, final(self).error()) == v2_verdict(old(self).subject(), old(self).error()),
    {
        let spec_ok = match self.card.str_at("spec") {
            Some(s) => text::same(s, "chara_card_v2"),
            None => false,
        };
        if !spec_ok {
            self.last_error = Some("spec".to_owned());
            return false;
        }
        let version_ok = match self.card.str_at("spec_version") {
            Some(s) => text::same(s, "2.0"),
            None => false,
        };
        if !version_ok {
            self.last_error = Some("spec_version".to_owned());
            return false;
        }
        match self.card.get("data") {
            Some(d) => self.validate_data_v2(d),
            None => {
                self.last_error = Some("No tavern card data found".to_owned());
                false
            },
        }
    }

    fn validate_data_v2(&mut self, data: &Json) -> (r: bool)
        ensures
            final(self).subject() == old(self).subject(),
            final(self).parsed_version() == old(self).parsed_version(),
            (r, final(self).error()) == data_verdict(data@, old(self).error()),
    {
        let required = [
            "name",
            "description",
            "personality",
            "scenario",
            "first_mes",
            "mes_example",
            "creator_notes",
            "system_prompt",
            "post_history_instructions",
            "alternate_greetings",
            "tags",
            "creator",
            "character_version",
            "extensions",
        ];
        assert(crate::characters::helpers::slices(required@) =~= v2_fields());
        let p = find_missing(data, &required);
        if p < 14 {
            self.last_error = Some(text::join2("data.", required[p]));
            return false;
        }
        let greetings_ok = data.array_at("alternate_greetings").is_some();
        let tags_ok = data.array_at("tags").is_some();
        let extensions_ok = match data.get("extensions") {
            Some(e) => e.is_object(),
            None => false,
        };
        if greetings_ok && tags_ok && extensions_ok {
            self.validate_character_book_v2(data)
        } else {
            false
        }
    }

    fn validate_character_book_v2(&mut self, data: &Json) -> (r: bool)
        ensures
            final(self).subject() == old(self).subject(),
            final(self).parsed_version() == old(self).parsed_version(),
            (r, final(self).error()) == book_verdict(data@, old(self).error()),
    {
        let book = match data.get("character_book") {
            Some(b) => b,
            None => return true,
        };
        let required = ["extensions", "entries"];
        assert(crate::characters::helpers::slices(required@) =~= book_fields());
        let p = find_missing(book, &required);
        if p < 2 {
            self.last_error = Some(text::join2("data.character_book.", required[p]));
            return false;
        }
        let entries_ok = book.array_at("entries").is_some();
        let extensions_ok = match book.get("extensions") {
            Some(e) => e.is_object(),
            None => false,
        };
        entries_ok && extensions_ok
    }

    fn validate_v3(&mut self) -> (r: bool)
        ensures
            final(self).subject() == old(self).subject(),
            final(self).parsed_version() == old(self).parsed_version(),
            (r, final(self).error()) == v3_verdict(
                old(self).subject(),
                old(self).parsed_version(),
                old(self).error(),
            ),
    {
        let spec_ok = match self.card.str_at("spec") {
            Some(s) => text::same(s, "chara_card_v3"),
            None => false,
        };
        if !spec_ok {
            self.last_error = Some("spec".to_owned());
            return false;
        }
        let version = match self.card.get("spec_version") {
            Some(t) => match numbers::double_at(t) {
                Some(b) => Some(b),
                None => if t.as_str().is_some() {
                    self.version
                } else {
                    None
                },
            },
            None => None,
        };
        let refused = match version {
            Some(b) => numbers::is_less(b, numbers::THREE) || (numbers::is_numeric(b)
                && !numbers::is_less(b, numbers::FOUR)),
            None => false,
        };
        if refused {
            self.last_error = Some("spec_version".to_owned());
            return false;
        }
        let has_data = match self.card.get("data") {
            Some(d) => d.is_object(),
            None => false,
        };
        if !has_data {
            self.last_error = Some("No tavern card data found".to_owned());
            return false;
        }
        true
    }
}

} // verus!
