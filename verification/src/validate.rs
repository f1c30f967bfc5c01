use vstd::prelude::*;
use vstd::std_specs::iter::IteratorSpec;

verus! {

/// A URL is accepted when it starts with `http://` or with `https://`,
/// letter for letter. Nothing else of it is looked at.
pub open spec fn valid_url(url: Seq<char>) -> bool {
    "http://"@.is_prefix_of(url) || "https://"@.is_prefix_of(url)
}

/// Whether `text` begins with the characters of `prefix`.
pub fn starts_with(text: &str, prefix: &str) -> (found: bool)
    ensures
        found == prefix@.is_prefix_of(text@),
{
    let mut rest = text.chars();
    let mut wanted = prefix.chars();
    let ghost mut matched: int = 0;
    assert(text@.skip(0) =~= text@);
    assert(prefix@.skip(0) =~= prefix@);
    loop
        invariant
            0 <= matched <= prefix@.len(),
            matched <= text@.len(),
            rest.obeys_prophetic_iter_laws(),
            wanted.obeys_prophetic_iter_laws(),
            rest.remaining() == text@.skip(matched),
            wanted.remaining() == prefix@.skip(matched),
            text@.take(matched) == prefix@.take(matched),
        decreases prefix@.len() - matched,
    {
        match wanted.next() {
            None => {
                proof {
                    assert(matched == prefix@.len());
                    assert(prefix@.take(matched) =~= prefix@);
                    assert(text@.take(matched) =~= text@.subrange(0, prefix@.len() as int));
                }
                return true;
            },
            Some(expected) => {
                assert(expected == prefix@[matched]);
                match rest.next() {
                    None => {
                        assert(text@.len() == matched);
                        return false;
                    },
                    Some(c) => {
                        assert(c == text@[matched]);
                        if c != expected {
                            proof {
                                if prefix@.is_prefix_of(text@) {
                                    assert(text@.subrange(0, prefix@.len() as int)[matched]
                                        == prefix@[matched]);
                                }
                            }
                            return false;
                        }
                    },
                }
            },
        }
        proof {
            assert(text@.skip(matched).drop_first() =~= text@.skip(matched + 1));
            assert(prefix@.skip(matched).drop_first() =~= prefix@.skip(matched + 1));
            assert(text@.take(matched + 1) =~= text@.take(matched).push(text@[matched]));
            assert(prefix@.take(matched + 1) =~= prefix@.take(matched).push(prefix@[matched]));
            matched = matched + 1;
        }
    }
}

/// Checks a submitted URL.
pub fn is_valid_url(url: &str) -> (valid: bool)
    ensures
        valid == valid_url(url@),
{
    starts_with(url, "http://") || starts_with(url, "https://")
}

} // verus!
