//! Case conversion of names, done by `convert_case`.
use vstd::prelude::*;

verus! {

/// What `convert_case` makes of a name converted to Pascal case.
pub uninterp spec fn pascal_case(name: Seq<char>) -> Seq<char>;

/// A snake-case name: lower-case ASCII letters and underscores only.
pub open spec fn is_snake_name(name: Seq<char>) -> bool {
    forall|i: int| 0 <= i < name.len() ==> #[trigger] name[i] == '_' || ('a' <= name[i] && name[i] <= 'z')
}

/// The upper-case form of a lower-case ASCII letter.
pub open spec fn ascii_upper(c: char) -> char {
    ((c as int) - 32) as char
}

/// A word with its first letter upper-cased.
pub open spec fn capitalize(word: Seq<char>) -> Seq<char> {
    if word.len() == 0 {
        word
    } else {
        seq![ascii_upper(word[0])] + word.drop_first()
    }
}

/// The Pascal-case form of the rest of a snake-case name, `at_word_start`
/// telling whether its first character begins a word: underscores are dropped
/// and the first letter of every word is upper-cased.
pub open spec fn snake_to_pascal(name: Seq<char>, at_word_start: bool) -> Seq<char>
    decreases name.len(),
{
    if name.len() == 0 {
        Seq::empty()
    } else if name[0] == '_' {
        snake_to_pascal(name.drop_first(), true)
    } else {
        seq![if at_word_start { ascii_upper(name[0]) } else { name[0] }] + snake_to_pascal(name.drop_first(), false)
    }
}

/// The Pascal-case form of a snake-case name.
pub open spec fn snake_pascal(name: Seq<char>) -> Seq<char> {
    snake_to_pascal(name, true)
}

/// `convert_case::Casing::to_case` with `Case::Pascal` (for instance `my_api`
/// becomes `MyApi`). The result is named `pascal_case`; for a snake-case name
/// the contract also claims what the crate's splitting at `_` and upper-casing
/// of each word's first letter give: the words, each capitalized, joined.
#[verifier::external_body]
pub(crate) fn to_pascal_case(name: &str) -> (r: String)
    ensures
        r@ == pascal_case(name@),
        is_snake_name(name@) ==> r@ == snake_pascal(name@),
{
    convert_case::Casing::to_case(&name, convert_case::Case::Pascal)
}

/// Pascal case has no underscores.
pub proof fn lemma_pascal_has_no_underscore(name: Seq<char>, at_word_start: bool)
    requires
        is_snake_name(name),
    ensures
        !snake_to_pascal(name, at_word_start).contains('_'),
    decreases name.len(),
{
    if name.len() > 0 {
        assert(is_snake_name(name.drop_first())) by {
            assert forall|i: int| 0 <= i < name.drop_first().len() implies #[trigger] name.drop_first()[i] == '_'
                || ('a' <= name.drop_first()[i] && name.drop_first()[i] <= 'z') by {
                assert(name.drop_first()[i] == name[i + 1]);
            }
        }
        lemma_pascal_has_no_underscore(name.drop_first(), true);
        lemma_pascal_has_no_underscore(name.drop_first(), false);
        assert(name[0] == '_' || ('a' <= name[0] && name[0] <= 'z'));
        if name[0] != '_' {
            let head = if at_word_start { ascii_upper(name[0]) } else { name[0] };
            assert(head != '_');
            let rest = snake_to_pascal(name.drop_first(), false);
            let whole = seq![head] + rest;
            if whole.contains('_') {
                let k = choose|k: int| 0 <= k < whole.len() && whole[k] == '_';
                assert(k != 0);
                assert(rest[k - 1] == '_');
            }
        }
    }
}

/// A word without underscores keeps its letters once it has started.
proof fn lemma_pascal_inside_word(word: Seq<char>)
    requires
        !word.contains('_'),
    ensures
        snake_to_pascal(word, false) == word,
    decreases word.len(),
{
    if word.len() > 0 {
        assert(word[0] != '_');
        assert(!word.drop_first().contains('_')) by {
            if word.drop_first().contains('_') {
                let k = choose|k: int| 0 <= k < word.drop_first().len() && word.drop_first()[k] == '_';
                assert(word[k + 1] == '_');
            }
        }
        lemma_pascal_inside_word(word.drop_first());
        assert(seq![word[0]] + word.drop_first() =~= word);
    }
}

/// A single word becomes that word with its first letter upper-cased.
pub proof fn lemma_pascal_of_word(word: Seq<char>)
    requires
        !word.contains('_'),
    ensures
        snake_pascal(word) == capitalize(word),
{
    if word.len() > 0 {
        assert(word[0] != '_');
        assert(!word.drop_first().contains('_')) by {
            if word.drop_first().contains('_') {
                let k = choose|k: int| 0 <= k < word.drop_first().len() && word.drop_first()[k] == '_';
                assert(word[k + 1] == '_');
            }
        }
        lemma_pascal_inside_word(word.drop_first());
    }
}

proof fn lemma_pascal_concat(a: Seq<char>, b: Seq<char>, at_word_start: bool)
    ensures
        snake_to_pascal(a + seq!['_'] + b, at_word_start) == snake_to_pascal(a, at_word_start) + snake_pascal(b),
    decreases a.len(),
{
    let s = a + seq!['_'] + b;
    if a.len() == 0 {
        assert(s.drop_first() =~= b);
        assert(s[0] == '_');
        assert(snake_to_pascal(a, at_word_start) + snake_pascal(b) =~= snake_pascal(b));
    } else {
        assert(s.drop_first() =~= a.drop_first() + seq!['_'] + b);
        assert(s[0] == a[0]);
        lemma_pascal_concat(a.drop_first(), b, true);
        lemma_pascal_concat(a.drop_first(), b, false);
        if a[0] != '_' {
            let head = seq![if at_word_start { ascii_upper(a[0]) } else { a[0] }];
            assert(head + (snake_to_pascal(a.drop_first(), false) + snake_pascal(b))
                =~= head + snake_to_pascal(a.drop_first(), false) + snake_pascal(b));
        }
    }
}

/// Words joined by `_` become their Pascal-case forms joined with nothing in
/// between: every word after an underscore starts a new capitalized word.
pub proof fn lemma_pascal_of_joined_words(a: Seq<char>, b: Seq<char>)
    ensures
        snake_pascal(a + seq!['_'] + b) == snake_pascal(a) + snake_pascal(b),
{
    lemma_pascal_concat(a, b, true);
}

} // verus!
