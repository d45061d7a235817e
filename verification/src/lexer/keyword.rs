use vstd::prelude::*;
use vstd::string::StringExecFns;
use std::collections::HashMap;
use crate::text::str_eq;
use super::token_kind::{all_kinds, kind_named, kind_named_from, kinds, TokenKind};

verus! {

/// The table that says which identifiers are keywords, and of which kind.
///
/// Entries are kept in the order in which they were inserted; where a text occurs more than
/// once, the entry inserted last is the one that counts.
pub struct Keywords {
    entries: Vec<(String, TokenKind)>,
}

/// The table that `entries` stand for: each insertion in turn, later ones replacing earlier.
pub open spec fn table_of(entries: Seq<(String, TokenKind)>) -> Map<Seq<char>, TokenKind>
    decreases entries.len(),
{
    if entries.len() == 0 {
        Map::empty()
    } else {
        table_of(entries.drop_last()).insert(entries.last().0@, entries.last().1)
    }
}

impl View for Keywords {
    type V = Map<Seq<char>, TokenKind>;

    closed spec fn view(&self) -> Map<Seq<char>, TokenKind> {
        table_of(self.entries@)
    }
}

/// The kind that table `table` gives to `text`, if it holds it.
pub open spec fn lookup(table: Map<Seq<char>, TokenKind>, text: Seq<char>) -> Option<TokenKind> {
    if table.dom().contains(text) {
        Some(table[text])
    } else {
        None
    }
}

/// The keywords of the language.
pub open spec fn default_table() -> Map<Seq<char>, TokenKind> {
    Map::<Seq<char>, TokenKind>::empty().insert("and"@, TokenKind::And).insert(
        "class"@,
        TokenKind::Class,
    ).insert("else"@, TokenKind::Else).insert("false"@, TokenKind::False).insert(
        "fun"@,
        TokenKind::Fun,
    ).insert("for"@, TokenKind::For).insert("if"@, TokenKind::If).insert(
        "nil"@,
        TokenKind::Nil,
    ).insert("or"@, TokenKind::Or).insert("print"@, TokenKind::Print).insert(
        "return"@,
        TokenKind::Return,
    ).insert("super"@, TokenKind::Super).insert("this"@, TokenKind::This).insert(
        "true"@,
        TokenKind::True,
    ).insert("var"@, TokenKind::Var).insert("while"@, TokenKind::While)
}

impl Keywords {
    /// A table without entries.
    pub fn new() -> (keywords: Keywords)
        ensures
            keywords@ == Map::<Seq<char>, TokenKind>::empty(),
    {
        Keywords { entries: Vec::new() }
    }

    /// Makes `text` a keyword of kind `kind`, whatever it was before.
    pub fn insert(&mut self, text: &str, kind: TokenKind)
        ensures
            final(self)@ == old(self)@.insert(text@, kind),
    {
        self.entries.push((String::from_str(text), kind));
        assert(self.entries@.drop_last() =~= old(self).entries@);
    }

    /// The kind of the keyword `text`, or `None` where `text` is no keyword.
    pub fn get(&self, text: &str) -> (kind: Option<&TokenKind>)
        ensures
            match kind {
                Some(k) => lookup(self@, text@) == Some(*k),
                None => lookup(self@, text@) is None,
            },
    {
        let mut i: usize = self.entries.len();
        assert(self.entries@.take(i as int) =~= self.entries@);
        while i > 0
            invariant
                i <= self.entries.len(),
                lookup(self@, text@) == lookup(table_of(self.entries@.take(i as int)), text@),
            decreases i,
        {
            i = i - 1;
            proof {
                let prefix = self.entries@.take(i + 1);
                assert(prefix.drop_last() =~= self.entries@.take(i as int));
                assert(prefix.last() == self.entries@[i as int]);
            }
            if str_eq(self.entries[i].0.as_str(), text) {
                return Some(&self.entries[i].1);
            }
        }
        assert(self.entries@.take(0) =~= Seq::<(String, TokenKind)>::empty());
        None
    }
}

/// The table of the language's own keywords.
pub fn get_default_keywords() -> (keywords: Keywords)
    ensures
        keywords@ == default_table(),
{
    let mut m = Keywords::new();
    m.insert("and", TokenKind::And);
    m.insert("class", TokenKind::Class);
    m.insert("else", TokenKind::Else);
    m.insert("false", TokenKind::False);
    m.insert("fun", TokenKind::Fun);
    m.insert("for", TokenKind::For);
    m.insert("if", TokenKind::If);
    m.insert("nil", TokenKind::Nil);
    m.insert("or", TokenKind::Or);
    m.insert("print", TokenKind::Print);
    m.insert("return", TokenKind::Return);
    m.insert("super", TokenKind::Super);
    m.insert("this", TokenKind::This);
    m.insert("true", TokenKind::True);
    m.insert("var", TokenKind::Var);
    m.insert("while", TokenKind::While);
    m
}

#[verifier::external_type_specification]
#[verifier::external_body]
pub struct ExJsonError(serde_json::Error);

/// The mapping that the JSON text `json` spells out, from member name to member value,
/// where `json` is a JSON object whose values are all strings; `None` for any other text.
pub uninterp spec fn overlay_entries(json: Seq<char>) -> Option<Map<Seq<char>, Seq<char>>>;

/// The mapping that `pairs` stand for: each pair in turn, later ones replacing earlier.
pub open spec fn pairs_table(pairs: Seq<(String, String)>) -> Map<Seq<char>, Seq<char>>
    decreases pairs.len(),
{
    if pairs.len() == 0 {
        Map::empty()
    } else {
        pairs_table(pairs.drop_last()).insert(pairs.last().0@, pairs.last().1@)
    }
}

/// No text is the first component of two of the `pairs`.
pub open spec fn distinct_keys(pairs: Seq<(String, String)>) -> bool {
    forall|i: int, j: int|
        0 <= i < j < pairs.len() ==> (#[trigger] pairs[i]).0@ != (#[trigger] pairs[j]).0@
}

/// Every pair names a token kind.
pub open spec fn pairs_valid(pairs: Seq<(String, String)>) -> bool {
    forall|i: int| 0 <= i < pairs.len() ==> kind_named((#[trigger] pairs[i]).1@) is Some
}

/// Every value of the overlay names a token kind.
pub open spec fn overlay_valid(overlay: Map<Seq<char>, Seq<char>>) -> bool {
    forall|text: Seq<char>| #[trigger]
        overlay.dom().contains(text) ==> kind_named(overlay[text]) is Some
}

/// `base` with the entries of `overlay` added, those of `overlay` replacing those of `base`.
pub open spec fn overlaid(
    base: Map<Seq<char>, TokenKind>,
    overlay: Map<Seq<char>, Seq<char>>,
) -> Map<Seq<char>, TokenKind> {
    Map::new(
        |text: Seq<char>| base.dom().contains(text) || overlay.dom().contains(text),
        |text: Seq<char>|
            if overlay.dom().contains(text) {
                kind_named(overlay[text])->0
            } else {
                base[text]
            },
    )
}

/// The default table under an optional overlay; an absent or invalid overlay changes nothing.
pub open spec fn combined_table(overlay: Option<Map<Seq<char>, Seq<char>>>) -> Map<
    Seq<char>,
    TokenKind,
> {
    match overlay {
        Some(entries) => if overlay_valid(entries) {
            overlaid(default_table(), entries)
        } else {
            default_table()
        },
        None => default_table(),
    }
}

/// Pairs with distinct keys stand for the mapping that holds exactly those pairs.
pub proof fn lemma_pairs_table(pairs: Seq<(String, String)>)
    requires
        distinct_keys(pairs),
    ensures
        forall|i: int|
            0 <= i < pairs.len() ==> pairs_table(pairs).dom().contains((#[trigger] pairs[i]).0@)
                && pairs_table(pairs)[pairs[i].0@] == pairs[i].1@,
        forall|text: Seq<char>| #[trigger]
            pairs_table(pairs).dom().contains(text) ==> exists|i: int|
                0 <= i < pairs.len() && (#[trigger] pairs[i]).0@ == text,
    decreases pairs.len(),
{
    if pairs.len() > 0 {
        let init = pairs.drop_last();
        lemma_pairs_table(init);
        assert forall|i: int| 0 <= i < pairs.len() implies pairs_table(pairs).dom().contains(
            (#[trigger] pairs[i]).0@,
        ) && pairs_table(pairs)[pairs[i].0@] == pairs[i].1@ by {
            if i < pairs.len() - 1 {
                assert(init[i] == pairs[i]);
                assert(pairs[i].0@ != pairs[pairs.len() - 1].0@);
            }
        }
        assert forall|text: Seq<char>| #[trigger]
            pairs_table(pairs).dom().contains(text) implies exists|i: int|
            0 <= i < pairs.len() && (#[trigger] pairs[i]).0@ == text by {
            if text == pairs.last().0@ {
                assert(pairs[pairs.len() - 1].0@ == text);
            } else {
                assert(init.len() == pairs.len() - 1);
                assert(pairs_table(init).dom().contains(text));
                let i = choose|i: int| 0 <= i < init.len() && (#[trigger] init[i]).0@ == text;
                assert(init[i] == pairs[i]);
                assert(pairs[i].0@ == text);
            }
        }
    }
}

/// What the JSON text `json` spells out as an object of strings, as a list of its members.
///
/// Calls `serde_json::from_str` for a map from strings to strings and hands its entries out.
/// The contract claims that the entries are those of the object that the text spells out,
/// each member once, and that any other text gives an error.
#[verifier::external_body]
fn parse_overlay(json: &str) -> (parsed: Result<Vec<(String, String)>, serde_json::Error>)
    ensures
        match parsed {
            Ok(pairs) => distinct_keys(pairs@) && overlay_entries(json@) == Some(
                pairs_table(pairs@),
            ),
            Err(_) => overlay_entries(json@) is None,
        },
{
    serde_json::from_str::<HashMap<String, String>>(json).map(|m| m.into_iter().collect())
}

/// The kind whose name is `name`, if there is one.
pub fn kind_from_name(name: &str) -> (kind: Option<TokenKind>)
    ensures
        kind == kind_named(name@),
{
    let list = all_kinds();
    let mut i: usize = 0;
    while i < list.len()
        invariant
            list@ == kinds(),
            i <= list.len(),
            kind_named(name@) == kind_named_from(name@, i as int),
        decreases list.len() - i,
    {
        if str_eq(list[i].name(), name) {
            return Some(list[i]);
        }
        i = i + 1;
    }
    None
}

/// Lays `pairs` over `base`: each pair makes its text a keyword of the kind that it names.
/// Where any pair names no kind, nothing is laid over and `base` comes back as it was.
pub fn apply_overlay(base: Keywords, pairs: &Vec<(String, String)>) -> (keywords: Keywords)
    ensures
        keywords@ == if pairs_valid(pairs@) {
            overlaid(base@, pairs_table(pairs@))
        } else {
            base@
        },
{
    let mut i: usize = 0;
    while i < pairs.len()
        invariant
            i <= pairs.len(),
            forall|k: int| 0 <= k < i ==> kind_named((#[trigger] pairs@[k]).1@) is Some,
        decreases pairs.len() - i,
    {
        if kind_from_name(pairs[i].1.as_str()).is_none() {
            return base;
        }
        i = i + 1;
    }
    let mut keywords = base;
    let mut j: usize = 0;
    assert(pairs@.take(0) =~= Seq::<(String, String)>::empty());
    assert(keywords@ =~= overlaid(base@, pairs_table(pairs@.take(0))));
    while j < pairs.len()
        invariant
            j <= pairs.len(),
            pairs_valid(pairs@),
            keywords@ == overlaid(base@, pairs_table(pairs@.take(j as int))),
        decreases pairs.len() - j,
    {
        let kind = kind_from_name(pairs[j].1.as_str());
        match kind {
            Some(kind) => {
                proof {
                    let next = pairs@.take(j + 1);
                    assert(next.drop_last() =~= pairs@.take(j as int));
                    assert(next.last() == pairs@[j as int]);
                    assert(keywords@.insert(pairs@[j as int].0@, kind) =~= overlaid(
                        base@,
                        pairs_table(next),
                    ));
                }
                keywords.insert(pairs[j].0.as_str(), kind);
            },
            None => {},
        }
        j = j + 1;
    }
    assert(pairs@.take(pairs.len() as int) =~= pairs@);
    keywords
}

/// The default table under the overlay that `local_keywords_json` spells out as a JSON object
/// from keyword text to kind name. Without a text, or with one that is no such object, the
/// default table.
pub fn combine_keywords(local_keywords_json: Option<&str>) -> (keywords: Keywords)
    ensures
        keywords@ == match local_keywords_json {
            Some(json) => combined_table(overlay_entries(json@)),
            None => default_table(),
        },
{
    let keywords = get_default_keywords();
    match local_keywords_json {
        Some(json) => {
            match parse_overlay(json) {
                Ok(pairs) => {
                    proof {
                        lemma_pairs_table(pairs@);
                    }
                    apply_overlay(keywords, &pairs)
                },
                Err(_) => keywords,
            }
        },
        None => keywords,
    }
}

/// A text that a valid overlay holds is a keyword of the kind that the overlay names for it;
/// every other text is what it is in the table underneath.
pub proof fn lemma_overlay_lookup(
    base: Map<Seq<char>, TokenKind>,
    overlay: Map<Seq<char>, Seq<char>>,
    text: Seq<char>,
)
    requires
        overlay_valid(overlay),
    ensures
        overlay.dom().contains(text) ==> lookup(overlaid(base, overlay), text) == kind_named(
            overlay[text],
        ),
        !overlay.dom().contains(text) ==> lookup(overlaid(base, overlay), text) == lookup(
            base,
            text,
        ),
{
}

} // verus!
