use vstd::prelude::*;

verus! {

/// A short contract identifier such as an outage id, a severity tag or a
/// status tag. Two symbols are the same exactly when their text is.
#[derive(Debug)]
pub struct Symbol {
    pub text: String,
}

impl View for Symbol {
    type V = Seq<char>;

    open spec fn view(&self) -> Seq<char> {
        self.text@
    }
}

impl Symbol {
    pub fn new(text: &str) -> (s: Symbol)
        ensures
            s@ == text@,
    {
        Symbol { text: text.to_owned() }
    }

    pub fn from_string(text: String) -> (s: Symbol)
        ensures
            s@ == text@,
    {
        Symbol { text }
    }

    pub fn as_str(&self) -> (s: &str)
        ensures
            s@ == self@,
    {
        self.text.as_str()
    }
}

impl Clone for Symbol {
    fn clone(&self) -> (s: Self)
        ensures
            s == *self,
    {
        Symbol { text: self.text.clone() }
    }
}

impl PartialEq for Symbol {
    fn eq(&self, other: &Self) -> (same: bool) {
        self.text == other.text
    }
}

impl vstd::std_specs::cmp::PartialEqSpecImpl for Symbol {
    open spec fn obeys_eq_spec() -> bool {
        true
    }

    open spec fn eq_spec(&self, other: &Self) -> bool {
        self@ == other@
    }
}

/// An account or contract address, held as its textual form.
#[derive(Debug)]
pub struct Account {
    pub text: String,
}

impl View for Account {
    type V = Seq<char>;

    open spec fn view(&self) -> Seq<char> {
        self.text@
    }
}

impl Account {
    pub fn new(text: &str) -> (a: Account)
        ensures
            a@ == text@,
    {
        Account { text: text.to_owned() }
    }

    pub fn from_string(text: String) -> (a: Account)
        ensures
            a@ == text@,
    {
        Account { text }
    }

    pub fn as_str(&self) -> (s: &str)
        ensures
            s@ == self@,
    {
        self.text.as_str()
    }
}

impl Clone for Account {
    fn clone(&self) -> (a: Self)
        ensures
            a == *self,
    {
        Account { text: self.text.clone() }
    }
}

impl PartialEq for Account {
    fn eq(&self, other: &Self) -> (same: bool) {
        self.text == other.text
    }
}

impl vstd::std_specs::cmp::PartialEqSpecImpl for Account {
    open spec fn obeys_eq_spec() -> bool {
        true
    }

    open spec fn eq_spec(&self, other: &Self) -> bool {
        self@ == other@
    }
}

/// Whether `who` appears among `ids`.
pub open spec fn listed_id(ids: Seq<Symbol>, who: Seq<char>) -> bool {
    exists|i: int| 0 <= i < ids.len() && #[trigger] ids[i]@ == who
}

pub fn contains_id(ids: &Vec<Symbol>, who: &Symbol) -> (b: bool)
    ensures
        b == listed_id(ids@, who@),
{
    let mut i: usize = 0;
    while i < ids.len()
        invariant
            i <= ids.len(),
            forall|j: int| 0 <= j < i ==> #[trigger] ids@[j]@ != who@,
        decreases ids.len() - i,
    {
        if ids[i] == *who {
            return true;
        }
        i = i + 1;
    }
    false
}

pub fn copy_ids(ids: &Vec<Symbol>) -> (r: Vec<Symbol>)
    ensures
        r@ == ids@,
{
    let mut r: Vec<Symbol> = Vec::new();
    let mut i: usize = 0;
    while i < ids.len()
        invariant
            i <= ids.len(),
            r@ == ids@.subrange(0, i as int),
        decreases ids.len() - i,
    {
        r.push(ids[i].clone());
        i = i + 1;
    }
    assert(ids@.subrange(0, ids.len() as int) =~= ids@);
    r
}

/// Length in bytes of text `s`, encoded as UTF-8, as a `usize` (every
/// text in memory has fewer bytes than `usize::MAX`).
pub open spec fn utf8_len(s: Seq<char>) -> usize {
    vstd::utf8::encode_utf8(s).len() as usize
}

/// Length of `s` in bytes.
pub fn byte_len(s: &String) -> (n: usize)
    ensures
        n == utf8_len(s@),
{
    s.as_str().len()
}

} // verus!

verus! {

/// The characters of `s`, in order.
pub fn chars_of(s: &str) -> (v: Vec<char>)
    ensures
        v@ == s@,
{
    let mut v: Vec<char> = Vec::new();
    for c in it: s.chars()
        invariant
            it.seq() == s@,
            v@ == it.seq().take(it.index() as int),
    {
        v.push(c);
    }
    v
}

} // verus!

verus! {

/// Whether text `a` comes before text `b` character by character, a
/// proper prefix coming first.
pub open spec fn text_before(a: Seq<char>, b: Seq<char>) -> bool
    decreases a.len(),
{
    if b.len() == 0 {
        false
    } else if a.len() == 0 {
        true
    } else if a[0] != b[0] {
        a[0] < b[0]
    } else {
        text_before(a.drop_first(), b.drop_first())
    }
}

/// Longest symbol the host holds inline; such symbols order before longer
/// ones.
pub const SMALL_SYMBOL_CHARS: usize = 9;

/// Whether symbol `a` comes before symbol `b` in the host's order of map
/// keys: the symbols of at most `SMALL_SYMBOL_CHARS` characters first, and
/// within each group character by character.
pub open spec fn symbol_before(a: Seq<char>, b: Seq<char>) -> bool {
    if (a.len() <= SMALL_SYMBOL_CHARS) != (b.len() <= SMALL_SYMBOL_CHARS) {
        a.len() <= SMALL_SYMBOL_CHARS
    } else {
        text_before(a, b)
    }
}

proof fn lemma_text_before_from(a: Seq<char>, b: Seq<char>, i: int)
    requires
        0 <= i <= a.len(),
        i <= b.len(),
        forall|j: int| 0 <= j < i ==> a[j] == b[j],
    ensures
        text_before(a, b) == text_before(a.subrange(i, a.len() as int), b.subrange(i, b.len() as int)),
    decreases i,
{
    if i == 0 {
        assert(a.subrange(0, a.len() as int) =~= a);
        assert(b.subrange(0, b.len() as int) =~= b);
    } else {
        let a1 = a.drop_first();
        let b1 = b.drop_first();
        assert forall|j: int| 0 <= j < i - 1 implies a1[j] == b1[j] by {
            assert(a1[j] == a[j + 1] && b1[j] == b[j + 1]);
        }
        lemma_text_before_from(a1, b1, i - 1);
        assert(a1.subrange(i - 1, a1.len() as int) =~= a.subrange(i, a.len() as int));
        assert(b1.subrange(i - 1, b1.len() as int) =~= b.subrange(i, b.len() as int));
    }
}

/// Whether key `a` comes before key `b` in the host's order of symbols.
pub fn key_precedes(a: &String, b: &String) -> (r: bool)
    ensures
        r == symbol_before(a@, b@),
{
    let ca = chars_of(a.as_str());
    let cb = chars_of(b.as_str());
    let short_a = ca.len() <= SMALL_SYMBOL_CHARS;
    let short_b = cb.len() <= SMALL_SYMBOL_CHARS;
    if short_a != short_b {
        return short_a;
    }
    let mut i: usize = 0;
    while i < ca.len() && i < cb.len() && ca[i] == cb[i]
        invariant
            i <= ca@.len(),
            i <= cb@.len(),
            forall|j: int| 0 <= j < i ==> ca@[j] == cb@[j],
        decreases ca@.len() - i,
    {
        i = i + 1;
    }
    proof {
        lemma_text_before_from(ca@, cb@, i as int);
        let ra = ca@.subrange(i as int, ca@.len() as int);
        let rb = cb@.subrange(i as int, cb@.len() as int);
        if i < ca@.len() && i < cb@.len() {
            assert(ra[0] == ca@[i as int] && rb[0] == cb@[i as int]);
        }
    }
    if i == cb.len() {
        false
    } else if i == ca.len() {
        true
    } else {
        ca[i] < cb[i]
    }
}

/// `e` placed into `keys` after every key that does not come after it.
pub open spec fn insert_key(keys: Seq<Seq<char>>, e: Seq<char>) -> Seq<Seq<char>>
    decreases keys.len(),
{
    if keys.len() == 0 {
        seq![e]
    } else if !symbol_before(e, keys.last()) {
        keys.push(e)
    } else {
        insert_key(keys.drop_last(), e).push(keys.last())
    }
}

/// `keys` in the host's order of symbol keys.
pub open spec fn key_order(keys: Seq<Seq<char>>) -> Seq<Seq<char>>
    decreases keys.len(),
{
    if keys.len() == 0 {
        Seq::empty()
    } else {
        insert_key(key_order(keys.drop_last()), keys.last())
    }
}

proof fn lemma_insert_key_split(s: Seq<Seq<char>>, e: Seq<char>, p: int)
    requires
        0 <= p <= s.len(),
        forall|k: int| p <= k < s.len() ==> symbol_before(e, #[trigger] s[k]),
        p == 0 || !symbol_before(e, s[p - 1]),
    ensures
        insert_key(s, e) == s.insert(p, e),
    decreases s.len(),
{
    if s.len() == 0 {
        assert(s.insert(p, e) =~= seq![e]);
    } else if p == s.len() {
        assert(s.insert(p, e) =~= s.push(e));
    } else {
        let rest = s.drop_last();
        assert forall|k: int| p <= k < rest.len() implies symbol_before(e, #[trigger] rest[k]) by {
            assert(rest[k] == s[k]);
        }
        assert(symbol_before(e, s[s.len() - 1]));
        lemma_insert_key_split(rest, e, p);
        assert(s.insert(p, e) =~= rest.insert(p, e).push(s.last()));
    }
}

/// Every key that `key_order` lists is one of the keys it was given, and
/// none is lost.
pub proof fn lemma_key_order_members(keys: Seq<Seq<char>>)
    ensures
        key_order(keys).len() == keys.len(),
        forall|j: int| 0 <= j < key_order(keys).len() ==> keys.contains(#[trigger] key_order(keys)[j]),
    decreases keys.len(),
{
    if keys.len() > 0 {
        let rest = keys.drop_last();
        lemma_key_order_members(rest);
        lemma_insert_key_members(key_order(rest), keys.last());
        let t = insert_key(key_order(rest), keys.last());
        assert forall|j: int| 0 <= j < t.len() implies keys.contains(#[trigger] t[j]) by {
            if t[j] == keys.last() {
                assert(keys[keys.len() - 1] == t[j]);
            } else {
                assert(key_order(rest).contains(t[j]));
                let m = choose|m: int| 0 <= m < key_order(rest).len() && key_order(rest)[m] == t[j];
                assert(rest.contains(key_order(rest)[m]));
                let q = choose|q: int| 0 <= q < rest.len() && rest[q] == key_order(rest)[m];
                assert(keys[q] == rest[q]);
            }
        }
    }
}

proof fn lemma_insert_key_members(s: Seq<Seq<char>>, e: Seq<char>)
    ensures
        insert_key(s, e).len() == s.len() + 1,
        forall|j: int| 0 <= j < insert_key(s, e).len() ==> #[trigger] insert_key(s, e)[j] == e
            || s.contains(insert_key(s, e)[j]),
    decreases s.len(),
{
    if s.len() > 0 && symbol_before(e, s.last()) {
        let rest = s.drop_last();
        lemma_insert_key_members(rest, e);
        let t = insert_key(rest, e);
        assert forall|j: int| 0 <= j < t.push(s.last()).len() implies #[trigger] t.push(s.last())[j]
            == e || s.contains(t.push(s.last())[j]) by {
            if j < t.len() {
                if t[j] != e {
                    let q = choose|q: int| 0 <= q < rest.len() && rest[q] == t[j];
                    assert(s[q] == rest[q]);
                }
            } else {
                assert(s[s.len() - 1] == s.last());
            }
        }
    } else if s.len() > 0 {
        assert forall|j: int| 0 <= j < s.push(e).len() implies #[trigger] s.push(e)[j] == e
            || s.contains(s.push(e)[j]) by {
            if j < s.len() {
                assert(s[j] == s.push(e)[j]);
            }
        }
    }
}

/// Each key comes before the next in the host's order of symbol keys.
pub open spec fn keys_ascending(s: Seq<Seq<char>>) -> bool {
    forall|i: int, j: int|
        0 <= i && j == i + 1 && j < s.len() ==> symbol_before(#[trigger] s[i], #[trigger] s[j])
}

proof fn lemma_text_total(a: Seq<char>, b: Seq<char>)
    ensures
        a != b ==> text_before(a, b) || text_before(b, a),
    decreases a.len(),
{
    if a.len() == 0 && b.len() == 0 {
        assert(a =~= b);
    } else if a.len() > 0 && b.len() > 0 && a[0] == b[0] {
        lemma_text_total(a.drop_first(), b.drop_first());
        if a.drop_first() == b.drop_first() {
            assert forall|k: int| 0 <= k < a.len() implies a[k] == b[k] by {
                if k > 0 {
                    assert(a[k] == a.drop_first()[k - 1] && b[k] == b.drop_first()[k - 1]);
                }
            }
            assert(a =~= b);
        }
    } else if a.len() > 0 && b.len() > 0 {
        assert(a[0] != b[0]);
    }
}

/// The host's order of symbol keys is total: of two different keys, one
/// comes first.
pub proof fn lemma_symbol_total(a: Seq<char>, b: Seq<char>)
    ensures
        a != b ==> symbol_before(a, b) || symbol_before(b, a),
{
    lemma_text_total(a, b);
}

proof fn lemma_insert_key_last(s: Seq<Seq<char>>, e: Seq<char>)
    ensures
        insert_key(s, e).last() == e || (s.len() > 0 && insert_key(s, e).last() == s.last()),
{
}

proof fn lemma_insert_key_ascending(s: Seq<Seq<char>>, e: Seq<char>)
    requires
        keys_ascending(s),
        !s.contains(e),
    ensures
        keys_ascending(insert_key(s, e)),
    decreases s.len(),
{
    lemma_insert_key_members(s, e);
    if s.len() == 0 {
    } else if !symbol_before(e, s.last()) {
        lemma_symbol_total(s.last(), e);
        assert(s[s.len() - 1] == s.last());
        let t = s.push(e);
        assert forall|i: int, j: int| 0 <= i && j == i + 1 && j < t.len() implies symbol_before(
            #[trigger] t[i],
            #[trigger] t[j],
        ) by {
            if j < s.len() {
                assert(t[i] == s[i] && t[j] == s[j]);
            }
        }
    } else {
        let rest = s.drop_last();
        assert(keys_ascending(rest)) by {
            assert forall|i: int, j: int| 0 <= i && j == i + 1 && j < rest.len() implies symbol_before(
                #[trigger] rest[i],
                #[trigger] rest[j],
            ) by {
                assert(rest[i] == s[i] && rest[j] == s[j]);
            }
        }
        assert(!rest.contains(e)) by {
            if rest.contains(e) {
                let q = choose|q: int| 0 <= q < rest.len() && rest[q] == e;
                assert(s[q] == e);
            }
        }
        lemma_insert_key_ascending(rest, e);
        lemma_insert_key_last(rest, e);
        lemma_insert_key_members(rest, e);
        let t = insert_key(rest, e);
        if rest.len() > 0 {
            assert(s[rest.len() - 1] == rest.last());
            assert(s[s.len() - 1] == s.last());
        }
        let u = t.push(s.last());
        assert forall|i: int, j: int| 0 <= i && j == i + 1 && j < u.len() implies symbol_before(
            #[trigger] u[i],
            #[trigger] u[j],
        ) by {
            if j < t.len() {
                assert(u[i] == t[i] && u[j] == t[j]);
            } else {
                assert(u[i] == t.last());
            }
        }
    }
}

/// Arranging keys without repeats in the host's order leaves each key
/// before the next.
pub proof fn lemma_key_order_ascending(keys: Seq<Seq<char>>)
    requires
        keys.no_duplicates(),
    ensures
        keys_ascending(key_order(keys)),
    decreases keys.len(),
{
    if keys.len() > 0 {
        let rest = keys.drop_last();
        assert(rest.no_duplicates()) by {
            assert forall|i: int, j: int| 0 <= i < rest.len() && 0 <= j < rest.len() && i != j implies rest[i]
                != rest[j] by {
                assert(rest[i] == keys[i] && rest[j] == keys[j]);
            }
        }
        lemma_key_order_ascending(rest);
        lemma_key_order_members(rest);
        assert(!key_order(rest).contains(keys.last())) by {
            if key_order(rest).contains(keys.last()) {
                let m = choose|m: int| 0 <= m < key_order(rest).len() && key_order(rest)[m] == keys.last();
                assert(rest.contains(key_order(rest)[m]));
                let q = choose|q: int| 0 <= q < rest.len() && rest[q] == key_order(rest)[m];
                assert(keys[q] == keys[keys.len() - 1]);
            }
        }
        lemma_insert_key_ascending(key_order(rest), keys.last());
    }
}

proof fn lemma_insert_key_distinct(s: Seq<Seq<char>>, e: Seq<char>)
    requires
        s.no_duplicates(),
        !s.contains(e),
    ensures
        insert_key(s, e).no_duplicates(),
    decreases s.len(),
{
    if s.len() == 0 {
    } else if !symbol_before(e, s.last()) {
        let t = s.push(e);
        assert forall|i: int, j: int| 0 <= i < t.len() && 0 <= j < t.len() && i != j implies t[i]
            != t[j] by {
            if i < s.len() && j < s.len() {
                assert(t[i] == s[i] && t[j] == s[j]);
            } else if i < s.len() {
                assert(t[i] == s[i]);
            } else {
                assert(t[j] == s[j]);
            }
        }
    } else {
        let rest = s.drop_last();
        assert(rest.no_duplicates()) by {
            assert forall|i: int, j: int| 0 <= i < rest.len() && 0 <= j < rest.len() && i != j implies rest[i]
                != rest[j] by {
                assert(rest[i] == s[i] && rest[j] == s[j]);
            }
        }
        assert(!rest.contains(e)) by {
            if rest.contains(e) {
                let q = choose|q: int| 0 <= q < rest.len() && rest[q] == e;
                assert(s[q] == e);
            }
        }
        lemma_insert_key_distinct(rest, e);
        lemma_insert_key_members(rest, e);
        let t = insert_key(rest, e);
        let last = s.last();
        assert(s[s.len() - 1] == last);
        assert(!t.contains(last)) by {
            if t.contains(last) {
                let m = choose|m: int| 0 <= m < t.len() && t[m] == last;
                if t[m] != e {
                    let q = choose|q: int| 0 <= q < rest.len() && rest[q] == t[m];
                    assert(s[q] == last);
                }
            }
        }
        let u = t.push(last);
        assert forall|i: int, j: int| 0 <= i < u.len() && 0 <= j < u.len() && i != j implies u[i]
            != u[j] by {
            if i < t.len() && j < t.len() {
                assert(u[i] == t[i] && u[j] == t[j]);
            } else if i < t.len() {
                assert(u[i] == t[i]);
            } else {
                assert(u[j] == t[j]);
            }
        }
    }
}

/// Arranging keys without repeats leaves them without repeats.
pub proof fn lemma_key_order_distinct(keys: Seq<Seq<char>>)
    requires
        keys.no_duplicates(),
    ensures
        key_order(keys).no_duplicates(),
    decreases keys.len(),
{
    if keys.len() > 0 {
        let rest = keys.drop_last();
        assert(rest.no_duplicates()) by {
            assert forall|i: int, j: int| 0 <= i < rest.len() && 0 <= j < rest.len() && i != j implies rest[i]
                != rest[j] by {
                assert(rest[i] == keys[i] && rest[j] == keys[j]);
            }
        }
        lemma_key_order_distinct(rest);
        lemma_key_order_members(rest);
        assert(!key_order(rest).contains(keys.last())) by {
            if key_order(rest).contains(keys.last()) {
                let m = choose|m: int| 0 <= m < key_order(rest).len() && key_order(rest)[m] == keys.last();
                assert(rest.contains(key_order(rest)[m]));
                let q = choose|q: int| 0 <= q < rest.len() && rest[q] == key_order(rest)[m];
                assert(keys[q] == keys[keys.len() - 1]);
            }
        }
        lemma_insert_key_distinct(key_order(rest), keys.last());
    }
}

/// The texts of `keys`.
pub open spec fn texts(keys: Seq<String>) -> Seq<Seq<char>> {
    keys.map_values(|k: String| k@)
}

/// `keys` arranged in the host's order of symbol keys.
pub fn order_keys(keys: &Vec<String>) -> (sorted: Vec<String>)
    ensures
        texts(sorted@) == key_order(texts(keys@)),
{
    let mut sorted: Vec<String> = Vec::new();
    let mut i: usize = 0;
    while i < keys.len()
        invariant
            i <= keys.len(),
            texts(sorted@) == key_order(texts(keys@.subrange(0, i as int))),
        decreases keys.len() - i,
    {
        let e = keys[i].clone();
        proof {
            assert(texts(keys@.subrange(0, i + 1)).drop_last() =~= texts(
                keys@.subrange(0, i as int),
            ));
            assert(texts(keys@.subrange(0, i + 1)).last() == e@);
        }
        let mut p: usize = sorted.len();
        while p > 0 && key_precedes(&e, &sorted[p - 1])
            invariant
                p <= sorted@.len(),
                forall|k: int| p <= k < sorted@.len() ==> symbol_before(e@, #[trigger] sorted@[k]@),
            decreases p,
        {
            p = p - 1;
        }
        proof {
            let t = texts(sorted@);
            assert forall|k: int| p <= k < t.len() implies symbol_before(e@, #[trigger] t[k]) by {
                assert(t[k] == sorted@[k]@);
            }
            if p > 0 {
                assert(t[p - 1] == sorted@[p - 1]@);
            }
            lemma_insert_key_split(t, e@, p as int);
        }
        let ghost before = sorted@;
        sorted.insert(p, e);
        assert(texts(sorted@) =~= texts(before).insert(p as int, keys@[i as int]@));
        i = i + 1;
    }
    assert(keys@.subrange(0, i as int) =~= keys@);
    sorted
}

} // verus!
