//! The scripture lookup behind the guidance command: a fixed, immutable
//! verse table searched first by exact lowercased key, then by keyword over
//! keys and lowercased verse text. The console guidance printed around the
//! result is a rendering concern outside the library.

use vstd::prelude::*;

use crate::text::{contains_sub, has_sub, str_eq_chars};

verus! {

/// One entry of the fixed verse table.
#[derive(Debug, Clone, PartialEq, Eq)]
pub struct VerseEntry {
    pub key: String,
    pub text: String,
}

/// Mathematical model of a `VerseEntry`.
pub struct VerseEntryModel {
    pub key: Seq<char>,
    pub text: Seq<char>,
}

impl View for VerseEntry {
    type V = VerseEntryModel;

    open spec fn view(&self) -> VerseEntryModel {
        VerseEntryModel { key: self.key@, text: self.text@ }
    }
}

/// What `str::to_lowercase` returns for a text: a function of the
/// characters alone.
pub uninterp spec fn lower_of(s: Seq<char>) -> Seq<char>;

/// Relies on str::to_lowercase: the result depends on the characters alone.
#[verifier::external_body]
fn to_lower(s: &str) -> (r: String)
    ensures
        r@ == lower_of(s@),
{
    s.to_lowercase()
}

/// The fixed verse table, in its insertion order.
pub open spec fn verse_table() -> Seq<VerseEntryModel> {
    seq![
        VerseEntryModel {
            key: "creation"@,
            text: "In the beginning God created the heaven and the earth. (Genesis 1:1)"@,
        },
        VerseEntryModel {
            key: "light"@,
            text: "And God said, Let there be light: and there was light. (Genesis 1:3)"@,
        },
        VerseEntryModel {
            key: "error"@,
            text: "For all have sinned, and come short of the glory of God. (Romans 3:23)"@,
        },
        VerseEntryModel {
            key: "wisdom"@,
            text: "The fear of the LORD is the beginning of wisdom. (Proverbs 9:10)"@,
        },
        VerseEntryModel {
            key: "debug"@,
            text: "Prove all things; hold fast that which is good. (1 Thessalonians 5:21)"@,
        },
        VerseEntryModel {
            key: "loop"@,
            text: "And let us not be weary in well doing: for in due season we shall reap, if we faint not. (Galatians 6:9)"@,
        },
        VerseEntryModel {
            key: "concurrency"@,
            text: "For where two or three are gathered together in my name, there am I in the midst of them. (Matthew 18:20)"@,
        },
        VerseEntryModel {
            key: "promise"@,
            text: "For I know the thoughts that I think toward you, saith the LORD, thoughts of peace, and not of evil, to give you an expected future. (Jeremiah 29:11)"@,
        },
    ]
}

fn verse_table_vec() -> (v: Vec<VerseEntry>)
    ensures
        v@.map_values(|e: VerseEntry| e@) == verse_table(),
{
    let mut v: Vec<VerseEntry> = Vec::new();
    v.push(VerseEntry {
        key: "creation".to_owned(),
        text: "In the beginning God created the heaven and the earth. (Genesis 1:1)".to_owned(),
    });
    v.push(VerseEntry {
        key: "light".to_owned(),
        text: "And God said, Let there be light: and there was light. (Genesis 1:3)".to_owned(),
    });
    v.push(VerseEntry {
        key: "error".to_owned(),
        text: "For all have sinned, and come short of the glory of God. (Romans 3:23)".to_owned(),
    });
    v.push(VerseEntry {
        key: "wisdom".to_owned(),
        text: "The fear of the LORD is the beginning of wisdom. (Proverbs 9:10)".to_owned(),
    });
    v.push(VerseEntry {
        key: "debug".to_owned(),
        text: "Prove all things; hold fast that which is good. (1 Thessalonians 5:21)".to_owned(),
    });
    v.push(VerseEntry {
        key: "loop".to_owned(),
        text: "And let us not be weary in well doing: for in due season we shall reap, if we faint not. (Galatians 6:9)".to_owned(),
    });
    v.push(VerseEntry {
        key: "concurrency".to_owned(),
        text: "For where two or three are gathered together in my name, there am I in the midst of them. (Matthew 18:20)".to_owned(),
    });
    v.push(VerseEntry {
        key: "promise".to_owned(),
        text: "For I know the thoughts that I think toward you, saith the LORD, thoughts of peace, and not of evil, to give you an expected future. (Jeremiah 29:11)".to_owned(),
    });
    proof {
        assert(v@.map_values(|e: VerseEntry| e@) =~= verse_table());
    }
    v
}

/// The text of the first table entry at or after `k` whose key equals the
/// lowercased topic.
pub open spec fn exact_verse_from(topic_l: Seq<char>, k: int) -> Option<Seq<char>>
    decreases verse_table().len() - k,
{
    if k < 0 || k >= verse_table().len() {
        None
    } else if verse_table()[k].key == topic_l {
        Some(verse_table()[k].text)
    } else {
        exact_verse_from(topic_l, k + 1)
    }
}

/// The verse filed under exactly the lowercased topic, if any.
pub open spec fn exact_verse_spec(topic: Seq<char>) -> Option<Seq<char>> {
    exact_verse_from(lower_of(topic), 0)
}

/// Looks up the verse filed under exactly the lowercased topic.
pub fn exact_verse(topic: &str) -> (r: Option<String>)
    ensures
        match r {
            Some(v) => exact_verse_spec(topic@) == Some(v@),
            None => exact_verse_spec(topic@) is None,
        },
{
    let topic_l = to_lower(topic);
    let table = verse_table_vec();
    let mut i: usize = 0;
    while i < table.len()
        invariant
            i <= verse_table().len(),
            table@.map_values(|e: VerseEntry| e@) == verse_table(),
            table@.len() == verse_table().len(),
            exact_verse_from(topic_l@, 0) == exact_verse_from(topic_l@, i as int),
            topic_l@ == lower_of(topic@),
        decreases verse_table().len() - i,
    {
        proof {
            assert(table@[i as int]@ == verse_table()[i as int]);
        }
        if str_eq_chars(table[i].key.as_str(), topic_l.as_str()) {
            return Some(table[i].text.clone());
        }
        i += 1;
    }
    None
}

/// A table entry matched by keyword: the lowercased topic occurs in the
/// key, or in the lowercased verse text.
pub open spec fn verse_keyword_match(e: VerseEntryModel, topic_l: Seq<char>) -> bool {
    has_sub(e.key, topic_l) || has_sub(lower_of(e.text), topic_l)
}

/// The keyword matches of the table at or after `k`, in table order.
pub open spec fn keyword_verses_from(topic_l: Seq<char>, k: int) -> Seq<VerseEntryModel>
    decreases verse_table().len() - k,
{
    if k < 0 || k >= verse_table().len() {
        Seq::empty()
    } else {
        let rest = keyword_verses_from(topic_l, k + 1);
        if verse_keyword_match(verse_table()[k], topic_l) {
            seq![verse_table()[k]] + rest
        } else {
            rest
        }
    }
}

/// The table entries the lowercased topic matches by keyword, in table
/// order.
pub open spec fn keyword_verses_spec(topic: Seq<char>) -> Seq<VerseEntryModel> {
    keyword_verses_from(lower_of(topic), 0)
}

/// Collects the table entries whose key, or whose lowercased verse text,
/// holds the lowercased topic.
pub fn keyword_verses(topic: &str) -> (r: Vec<VerseEntry>)
    ensures
        r@.map_values(|e: VerseEntry| e@) == keyword_verses_spec(topic@),
{
    let topic_l = to_lower(topic);
    let table = verse_table_vec();
    let mut out: Vec<VerseEntry> = Vec::new();
    let mut i: usize = 0;
    while i < table.len()
        invariant
            i <= verse_table().len(),
            table@.map_values(|e: VerseEntry| e@) == verse_table(),
            table@.len() == verse_table().len(),
            out@.map_values(|e: VerseEntry| e@) + keyword_verses_from(topic_l@, i as int)
                == keyword_verses_from(topic_l@, 0),
            topic_l@ == lower_of(topic@),
        decreases verse_table().len() - i,
    {
        proof {
            assert(table@[i as int]@ == verse_table()[i as int]);
        }
        let lowered_text = to_lower(table[i].text.as_str());
        if contains_sub(table[i].key.as_str(), topic_l.as_str()) || contains_sub(
            lowered_text.as_str(),
            topic_l.as_str(),
        ) {
            let ghost before = out@.map_values(|e: VerseEntry| e@);
            let entry = VerseEntry { key: table[i].key.clone(), text: table[i].text.clone() };
            out.push(entry);
            proof {
                assert(table@[i as int]@ == verse_table()[i as int]);
                assert(out@.map_values(|e: VerseEntry| e@) =~= before.push(
                    verse_table()[i as int],
                ));
                assert(before + keyword_verses_from(topic_l@, i as int) =~= before.push(
                    verse_table()[i as int],
                ) + keyword_verses_from(topic_l@, i as int + 1));
            }
        }
        i += 1;
    }
    proof {
        assert(keyword_verses_from(topic_l@, verse_table().len() as int) =~= Seq::<
            VerseEntryModel,
        >::empty());
        assert(out@.map_values(|e: VerseEntry| e@) =~= keyword_verses_from(topic_l@, 0));
    }
    out
}

} // verus!
