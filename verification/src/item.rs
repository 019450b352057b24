//! Items and the English-article helper used when naming them to the player.

use vstd::prelude::*;

verus! {

/// A describable thing in the world's catalog. `hidden` marks catalog-only
/// entries never meant to be discovered by name, such as pure unlock tokens.
#[derive(Clone, Debug)]
pub struct Item {
    pub name: String,
    pub description: String,
    pub hidden: Option<bool>,
}

pub open spec fn is_vowel(c: char) -> bool {
    c == 'a' || c == 'e' || c == 'i' || c == 'o' || c == 'u'
}

/// A word takes "an" when it begins with a vowel letter or with the literal
/// prefix "ho" (an irregular-pronunciation special case such as "hour").
pub open spec fn takes_an(w: Seq<char>) -> bool {
    w.len() > 0 && (is_vowel(w[0]) || (w.len() >= 2 && w[0] == 'h' && w[1] == 'o'))
}

/// The indefinite article used before `w`.
pub open spec fn spec_article(w: Seq<char>) -> Seq<char> {
    if takes_an(w) {
        "an"@
    } else {
        "a"@
    }
}

/// Choose "a" or "an" for a word.
pub fn get_article(word: &String) -> (r: String)
    ensures
        r@ == spec_article(word@),
{
    let s = word.as_str();
    let n = s.unicode_len();
    let an = if n > 0 {
        let c0 = s.get_char(0);
        if c0 == 'a' || c0 == 'e' || c0 == 'i' || c0 == 'o' || c0 == 'u' {
            true
        } else if c0 == 'h' && n >= 2 {
            s.get_char(1) == 'o'
        } else {
            false
        }
    } else {
        false
    };
    if an {
        String::from_str("an")
    } else {
        String::from_str("a")
    }
}

/// An item's name preceded by its article.
pub open spec fn item_entry(w: Seq<char>) -> Seq<char> {
    spec_article(w) + " "@ + w
}

/// The first `k` items rendered as entries joined by ", ".
pub open spec fn leading_entries(items: Seq<Seq<char>>, k: int) -> Seq<char>
    decreases k,
{
    if k <= 0 {
        Seq::empty()
    } else if k == 1 {
        item_entry(items[0])
    } else {
        leading_entries(items, k - 1) + ", "@ + item_entry(items[k - 1])
    }
}

/// A non-empty item list rendered for the player: one entry alone, or the
/// leading entries comma-joined and then "and" with the final entry — no
/// comma before the "and".
pub open spec fn items_text(items: Seq<Seq<char>>) -> Seq<char>
    recommends
        items.len() > 0,
{
    if items.len() == 1 {
        item_entry(items[0])
    } else {
        leading_entries(items, items.len() - 1) + " and "@ + item_entry(items.last())
    }
}

impl Item {
    /// Render a list of item names, or nothing for an empty list (the caller
    /// decides the "found nothing" message).
    pub fn items_to_text(items: &Vec<String>) -> (r: Option<String>)
        ensures
            match r {
                Some(t) => items@.len() > 0 && t@ == items_text(items.deep_view()),
                None => items@.len() == 0,
            },
    {
        if items.len() == 0 {
            None
        } else if items.len() == 1 {
            let mut s = get_article(&items[0]);
            s.append(" ");
            s.append(items[0].as_str());
            proof {
                assert(s@ =~= item_entry(items.deep_view()[0]));
            }
            Some(s)
        } else {
            let mut s = String::new();
            let mut i: usize = 0;
            proof {
                assert(s@ =~= leading_entries(items.deep_view(), 0));
            }
            while i < items.len() - 1
                invariant
                    items@.len() > 1,
                    0 <= i <= items@.len() - 1,
                    s@ == leading_entries(items.deep_view(), i as int),
                decreases items@.len() - 1 - i,
            {
                if i > 0 {
                    s.append(", ");
                }
                let a = get_article(&items[i]);
                s.append(a.as_str());
                s.append(" ");
                s.append(items[i].as_str());
                proof {
                    assert(s@ =~= leading_entries(items.deep_view(), i + 1));
                }
                i += 1;
            }
            s.append(" and ");
            let a = get_article(&items[i]);
            s.append(a.as_str());
            s.append(" ");
            s.append(items[i].as_str());
            proof {
                assert(items.deep_view().last() == items.deep_view()[i as int]);
                assert(s@ =~= items_text(items.deep_view()));
            }
            Some(s)
        }
    }
}

} // verus!
