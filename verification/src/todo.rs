//! Recognising to-do items in typed text.
//!
//! A line is a to-do when, after trimming, it is between 3 and 200 UTF-8 bytes
//! long and either matches one of the to-do patterns below (tried in order; the
//! item is the text after the trigger words) or starts with an imperative verb.
//! Each pattern is anchored at both ends of the trimmed line, takes its
//! trigger words as alternatives tried in the order listed, lets whitespace
//! follow them, and captures a non-empty tail that holds no line feed.
use vstd::prelude::*;
use crate::text::{
    count_ws_prefix, has_char, has_prefix, is_listed, starts_with, str_chars, string_of, subvec, trim,
    trim_bounds, utf8_len, utf8_len_capped, ws_prefix_len, lemma_utf8_len_concat,
};

verus! {

// ---------------------------------------------------------------------------
// Pattern vocabulary
// ---------------------------------------------------------------------------

/// Views of a list of character vectors.
pub open spec fn views(v: Seq<Vec<char>>) -> Seq<Seq<char>> {
    Seq::new(v.len(), |i: int| v[i]@)
}

/// Views of a list of strings.
pub open spec fn string_views(v: Seq<String>) -> Seq<Seq<char>> {
    Seq::new(v.len(), |i: int| v[i]@)
}

/// The view of an optional character vector.
pub open spec fn opt_chars(o: Option<Vec<char>>) -> Option<Seq<char>> {
    match o {
        Some(v) => Some(v@),
        None => None,
    }
}

/// The view of an optional string.
pub open spec fn opt_string(o: Option<String>) -> Option<Seq<char>> {
    match o {
        Some(v) => Some(v@),
        None => None,
    }
}

/// Trigger words of the explicit marker pattern, followed by a colon.
pub open spec fn marker_words() -> Seq<Seq<char>> {
    seq![seq!['T', 'O', 'D', 'O'], seq!['t', 'o', 'd', 'o'], seq!['待', '办'], seq!['T', 'O', 'D', 'O', ':']]
}

/// "Remember to ...".
pub open spec fn remember_words() -> Seq<Seq<char>> {
    seq![seq!['记', '得'], seq!['记', '得', '要']]
}

/// "Need / must / should ...".
pub open spec fn need_words() -> Seq<Seq<char>> {
    seq![seq!['需', '要'], seq!['必', '须'], seq!['应', '该'], seq!['得'], seq!['要']]
}

/// "Prepare / plan / intend / want ...".
pub open spec fn plan_words() -> Seq<Seq<char>> {
    seq![seq!['准', '备'], seq!['计', '划'], seq!['打', '算'], seq!['想', '要'], seq!['想']]
}

/// Action verbs that open an instruction.
pub open spec fn action_words() -> Seq<Seq<char>> {
    seq![
        seq!['提', '交'],
        seq!['发', '送'],
        seq!['回', '复'],
        seq!['检', '查'],
        seq!['确', '认'],
        seq!['完', '成'],
        seq!['处', '理'],
        seq!['解', '决'],
        seq!['安', '排'],
        seq!['预', '约'],
        seq!['订', '购'],
        seq!['购', '买'],
        seq!['联', '系'],
        seq!['通', '知'],
        seq!['提', '醒'],
        seq!['整', '理'],
    ]
}

/// "Don't forget ...".
pub open spec fn reminder_words() -> Seq<Seq<char>> {
    seq![
        seq!['别', '忘', '了'],
        seq!['不', '要', '忘', '记'],
        seq!['不', '要', '忘', '了'],
        seq!['记', '着'],
        seq!['记', '住'],
    ]
}

/// Time words that may open a to-do.
pub open spec fn time_words() -> Seq<Seq<char>> {
    seq![
        seq!['这', '周'],
        seq!['本', '周'],
        seq!['下', '周'],
        seq!['这', '月'],
        seq!['下', '月'],
        seq!['今', '天'],
        seq!['明', '天'],
        seq!['后', '天'],
    ]
}

/// Words that may follow a time word.
pub open spec fn time_verb_words() -> Seq<Seq<char>> {
    seq![seq!['要'], seq!['需', '要'], seq!['得'], seq!['去'], seq!['做']]
}

/// The need words of the pattern that ends with a completion verb.
pub open spec fn need_done_words() -> Seq<Seq<char>> {
    seq![seq!['需', '要'], seq!['必', '须'], seq!['应', '该'], seq!['得']]
}

/// "Tomorrow / today / next week / this week" followed by "要".
pub open spec fn time_need_words() -> Seq<Seq<char>> {
    seq![seq!['明', '天', '要'], seq!['今', '天', '要'], seq!['下', '周', '要'], seq!['这', '周', '要']]
}

/// Sentence openers that make a line an instruction.
pub open spec fn imperative_starts() -> Seq<Seq<char>> {
    seq![
        seq!['请'],
        seq!['去'],
        seq!['把'],
        seq!['将'],
        seq!['给'],
        seq!['帮'],
        seq!['联', '系'],
        seq!['通', '知'],
        seq!['提', '醒'],
        seq!['准', '备'],
        seq!['整', '理'],
        seq!['提', '交'],
        seq!['发', '送'],
        seq!['回', '复'],
        seq!['检', '查'],
        seq!['确', '认'],
        seq!['完', '成'],
        seq!['处', '理'],
        seq!['解', '决'],
        seq!['安', '排'],
        seq!['预', '约'],
        seq!['订', '购'],
        seq!['购', '买'],
    ]
}

// ---------------------------------------------------------------------------
// Pattern semantics
// ---------------------------------------------------------------------------

/// Optional whitespace followed by a non-empty tail without line feeds that
/// runs to the end of `r` (whitespace is taken greedily; the tail is what is left).
pub open spec fn rest_capture(r: Seq<char>) -> Option<Seq<char>> {
    let c = r.skip(ws_prefix_len(r) as int);
    if c.len() > 0 {
        if c.contains('\n') {
            None
        } else {
            Some(c)
        }
    } else if r.len() > 0 && r.last() != '\n' {
        Some(seq![r.last()])
    } else {
        None
    }
}

/// `^(w1|w2|...)\s*(.+)$`: the tail after the first trigger word that works.
pub open spec fn alts_rest(t: Seq<char>, words: Seq<Seq<char>>) -> Option<Seq<char>>
    decreases words.len(),
{
    if words.len() == 0 {
        None
    } else if starts_with(t, words[0]) && rest_capture(t.skip(words[0].len() as int)) is Some {
        rest_capture(t.skip(words[0].len() as int))
    } else {
        alts_rest(t, words.drop_first())
    }
}

pub open spec fn is_colon(c: char) -> bool {
    c == ':' || c == '：'
}

/// After a trigger word: optional whitespace, a colon, then as in [`rest_capture`].
pub open spec fn colon_capture(r: Seq<char>) -> Option<Seq<char>> {
    let m = ws_prefix_len(r);
    if m < r.len() && is_colon(r[m as int]) {
        rest_capture(r.skip(m + 1 as int))
    } else {
        None
    }
}

/// `^(w1|...)\s*[:：]\s*(.+)$`.
pub open spec fn colon_rest(t: Seq<char>, words: Seq<Seq<char>>) -> Option<Seq<char>>
    decreases words.len(),
{
    if words.len() == 0 {
        None
    } else if starts_with(t, words[0]) && colon_capture(t.skip(words[0].len() as int)) is Some {
        colon_capture(t.skip(words[0].len() as int))
    } else {
        colon_rest(t, words.drop_first())
    }
}

/// `^(time words)\s*(verbs)\s*(.+)$`: the third group.
pub open spec fn time_verb_rest(t: Seq<char>, times: Seq<Seq<char>>, verbs: Seq<Seq<char>>) -> Option<
    Seq<char>,
>
    decreases times.len(),
{
    if times.len() == 0 {
        None
    } else {
        let r = t.skip(times[0].len() as int);
        let s = r.skip(ws_prefix_len(r) as int);
        if starts_with(t, times[0]) && alts_rest(s, verbs) is Some {
            alts_rest(s, verbs)
        } else {
            time_verb_rest(t, times.drop_first(), verbs)
        }
    }
}

/// The completion verbs that may close a need sentence.
pub open spec fn is_done_pair(a: char, b: char) -> bool {
    (a == '完' && b == '成') || (a == '处' && b == '理') || (a == '解' && b == '决')
}

/// `(.+)(?:完成|做|处理|解决)$` on `c`: the longest non-empty head before a
/// closing verb, or nothing when `c` holds a line feed.
pub open spec fn head_before_done(c: Seq<char>) -> Option<Seq<char>> {
    if c.contains('\n') {
        None
    } else if c.len() >= 2 && c.last() == '做' {
        Some(c.drop_last())
    } else if c.len() >= 3 && is_done_pair(c[c.len() - 2], c.last()) {
        Some(c.take(c.len() - 2))
    } else {
        None
    }
}

/// `\s*(.+)(?:完成|做|处理|解决)$` on `r`, trying `k` leading whitespace
/// characters first and fewer after that.
pub open spec fn done_capture(r: Seq<char>, k: nat) -> Option<Seq<char>>
    decreases k,
{
    if head_before_done(r.skip(k as int)) is Some {
        head_before_done(r.skip(k as int))
    } else if k > 0 {
        done_capture(r, (k - 1) as nat)
    } else {
        None
    }
}

/// `^(need words)\s*(.+)(?:完成|做|处理|解决)$`.
pub open spec fn done_rest(t: Seq<char>, words: Seq<Seq<char>>) -> Option<Seq<char>>
    decreases words.len(),
{
    if words.len() == 0 {
        None
    } else {
        let r = t.skip(words[0].len() as int);
        if starts_with(t, words[0]) && done_capture(r, ws_prefix_len(r)) is Some {
            done_capture(r, ws_prefix_len(r))
        } else {
            done_rest(t, words.drop_first())
        }
    }
}

/// The captured item of the first to-do pattern that matches the trimmed line `t`.
pub open spec fn todo_capture(t: Seq<char>) -> Option<Seq<char>> {
    if colon_rest(t, marker_words()) is Some {
        colon_rest(t, marker_words())
    } else if alts_rest(t, remember_words()) is Some {
        alts_rest(t, remember_words())
    } else if alts_rest(t, need_words()) is Some {
        alts_rest(t, need_words())
    } else if alts_rest(t, plan_words()) is Some {
        alts_rest(t, plan_words())
    } else if alts_rest(t, action_words()) is Some {
        alts_rest(t, action_words())
    } else if alts_rest(t, reminder_words()) is Some {
        alts_rest(t, reminder_words())
    } else if time_verb_rest(t, time_words(), time_verb_words()) is Some {
        time_verb_rest(t, time_words(), time_verb_words())
    } else if done_rest(t, need_done_words()) is Some {
        done_rest(t, need_done_words())
    } else {
        alts_rest(t, time_need_words())
    }
}

/// `t` opens with an imperative word and is more than three bytes longer than it.
pub open spec fn imperative(t: Seq<char>) -> bool {
    exists|i: int|
        0 <= i < imperative_starts().len() && starts_with(t, #[trigger] imperative_starts()[i])
            && utf8_len(t) > utf8_len(imperative_starts()[i]) + 3
}

/// The to-do item found in one line of text, if any.
pub open spec fn todo_of(text: Seq<char>) -> Option<Seq<char>> {
    let t = trim(text);
    if utf8_len(t) < 3 || utf8_len(t) > 200 {
        None
    } else if todo_capture(t) is Some {
        Some(trim(todo_capture(t)->0))
    } else if imperative(t) {
        Some(t)
    } else {
        None
    }
}

// ---------------------------------------------------------------------------
// Word lists
// ---------------------------------------------------------------------------

fn w1(a: char) -> (r: Vec<char>)
    ensures
        r@ == seq![a],
{
    let mut r = Vec::new();
    r.push(a);
    assert(r@ =~= seq![a]);
    r
}

fn w2(a: char, b: char) -> (r: Vec<char>)
    ensures
        r@ == seq![a, b],
{
    let mut r = w1(a);
    r.push(b);
    assert(r@ =~= seq![a, b]);
    r
}

fn w3(a: char, b: char, c: char) -> (r: Vec<char>)
    ensures
        r@ == seq![a, b, c],
{
    let mut r = w2(a, b);
    r.push(c);
    assert(r@ =~= seq![a, b, c]);
    r
}

fn w4(a: char, b: char, c: char, d: char) -> (r: Vec<char>)
    ensures
        r@ == seq![a, b, c, d],
{
    let mut r = w3(a, b, c);
    r.push(d);
    assert(r@ =~= seq![a, b, c, d]);
    r
}

fn w5(a: char, b: char, c: char, d: char, e: char) -> (r: Vec<char>)
    ensures
        r@ == seq![a, b, c, d, e],
{
    let mut r = w4(a, b, c, d);
    r.push(e);
    assert(r@ =~= seq![a, b, c, d, e]);
    r
}

fn marker_list() -> (r: Vec<Vec<char>>)
    ensures
        views(r@) == marker_words(),
{
    let r = vec![w4('T', 'O', 'D', 'O'), w4('t', 'o', 'd', 'o'), w2('待', '办'), w5('T', 'O', 'D', 'O', ':')];
    assert(views(r@) =~= marker_words());
    r
}

fn remember_list() -> (r: Vec<Vec<char>>)
    ensures
        views(r@) == remember_words(),
{
    let r = vec![w2('记', '得'), w3('记', '得', '要')];
    assert(views(r@) =~= remember_words());
    r
}

fn need_list() -> (r: Vec<Vec<char>>)
    ensures
        views(r@) == need_words(),
{
    let r = vec![w2('需', '要'), w2('必', '须'), w2('应', '该'), w1('得'), w1('要')];
    assert(views(r@) =~= need_words());
    r
}

fn plan_list() -> (r: Vec<Vec<char>>)
    ensures
        views(r@) == plan_words(),
{
    let r = vec![w2('准', '备'), w2('计', '划'), w2('打', '算'), w2('想', '要'), w1('想')];
    assert(views(r@) =~= plan_words());
    r
}

fn action_list() -> (r: Vec<Vec<char>>)
    ensures
        views(r@) == action_words(),
{
    let r = vec![
        w2('提', '交'),
        w2('发', '送'),
        w2('回', '复'),
        w2('检', '查'),
        w2('确', '认'),
        w2('完', '成'),
        w2('处', '理'),
        w2('解', '决'),
        w2('安', '排'),
        w2('预', '约'),
        w2('订', '购'),
        w2('购', '买'),
        w2('联', '系'),
        w2('通', '知'),
        w2('提', '醒'),
        w2('整', '理'),
    ];
    assert(views(r@) =~= action_words());
    r
}

fn reminder_list() -> (r: Vec<Vec<char>>)
    ensures
        views(r@) == reminder_words(),
{
    let r = vec![
        w3('别', '忘', '了'),
        w4('不', '要', '忘', '记'),
        w4('不', '要', '忘', '了'),
        w2('记', '着'),
        w2('记', '住'),
    ];
    assert(views(r@) =~= reminder_words());
    r
}

fn time_list() -> (r: Vec<Vec<char>>)
    ensures
        views(r@) == time_words(),
{
    let r = vec![
        w2('这', '周'),
        w2('本', '周'),
        w2('下', '周'),
        w2('这', '月'),
        w2('下', '月'),
        w2('今', '天'),
        w2('明', '天'),
        w2('后', '天'),
    ];
    assert(views(r@) =~= time_words());
    r
}

fn time_verb_list() -> (r: Vec<Vec<char>>)
    ensures
        views(r@) == time_verb_words(),
{
    let r = vec![w1('要'), w2('需', '要'), w1('得'), w1('去'), w1('做')];
    assert(views(r@) =~= time_verb_words());
    r
}

fn need_done_list() -> (r: Vec<Vec<char>>)
    ensures
        views(r@) == need_done_words(),
{
    let r = vec![w2('需', '要'), w2('必', '须'), w2('应', '该'), w1('得')];
    assert(views(r@) =~= need_done_words());
    r
}

fn time_need_list() -> (r: Vec<Vec<char>>)
    ensures
        views(r@) == time_need_words(),
{
    let r = vec![w3('明', '天', '要'), w3('今', '天', '要'), w3('下', '周', '要'), w3('这', '周', '要')];
    assert(views(r@) =~= time_need_words());
    r
}

fn imperative_list() -> (r: Vec<Vec<char>>)
    ensures
        views(r@) == imperative_starts(),
{
    let r = vec![
        w1('请'),
        w1('去'),
        w1('把'),
        w1('将'),
        w1('给'),
        w1('帮'),
        w2('联', '系'),
        w2('通', '知'),
        w2('提', '醒'),
        w2('准', '备'),
        w2('整', '理'),
        w2('提', '交'),
        w2('发', '送'),
        w2('回', '复'),
        w2('检', '查'),
        w2('确', '认'),
        w2('完', '成'),
        w2('处', '理'),
        w2('解', '决'),
        w2('安', '排'),
        w2('预', '约'),
        w2('订', '购'),
        w2('购', '买'),
    ];
    assert(views(r@) =~= imperative_starts());
    r
}

// ---------------------------------------------------------------------------
// Matching
// ---------------------------------------------------------------------------

fn capture_rest(r: &Vec<char>) -> (o: Option<Vec<char>>)
    ensures
        opt_chars(o) == rest_capture(r@),
{
    let m = count_ws_prefix(r, 0);
    assert(r@.skip(0) =~= r@);
    if m < r.len() {
        let c = subvec(r, m, r.len());
        assert(c@ =~= r@.skip(m as int));
        if has_char(&c, '\n') {
            None
        } else {
            Some(c)
        }
    } else {
        assert(r@.skip(m as int).len() == 0);
        if r.len() > 0 && r[r.len() - 1] != '\n' {
            let v = w1(r[r.len() - 1]);
            Some(v)
        } else {
            None
        }
    }
}

fn match_alts_rest(t: &Vec<char>, words: &Vec<Vec<char>>) -> (o: Option<Vec<char>>)
    ensures
        opt_chars(o) == alts_rest(t@, views(words@)),
{
    assert(views(words@).skip(0) =~= views(words@));
    let mut i: usize = 0;
    while i < words.len()
        invariant
            i <= words.len(),
            alts_rest(t@, views(words@)) == alts_rest(t@, views(words@).skip(i as int)),
        decreases words.len() - i,
    {
        let ghost ws = views(words@).skip(i as int);
        assert(ws[0] == words@[i as int]@);
        assert(ws.drop_first() =~= views(words@).skip(i + 1));
        if has_prefix(t, &words[i]) {
            let r = subvec(t, words[i].len(), t.len());
            assert(r@ =~= t@.skip(words@[i as int]@.len() as int));
            let c = capture_rest(&r);
            if c.is_some() {
                return c;
            }
        }
        i += 1;
    }
    assert(views(words@).skip(i as int).len() == 0);
    None
}

fn capture_colon(r: &Vec<char>) -> (o: Option<Vec<char>>)
    ensures
        opt_chars(o) == colon_capture(r@),
{
    let m = count_ws_prefix(r, 0);
    assert(r@.skip(0) =~= r@);
    if m < r.len() && (r[m] == ':' || r[m] == '：') {
        let rest = subvec(r, m + 1, r.len());
        assert(rest@ =~= r@.skip(m + 1));
        capture_rest(&rest)
    } else {
        None
    }
}

fn match_colon_rest(t: &Vec<char>, words: &Vec<Vec<char>>) -> (o: Option<Vec<char>>)
    ensures
        opt_chars(o) == colon_rest(t@, views(words@)),
{
    assert(views(words@).skip(0) =~= views(words@));
    let mut i: usize = 0;
    while i < words.len()
        invariant
            i <= words.len(),
            colon_rest(t@, views(words@)) == colon_rest(t@, views(words@).skip(i as int)),
        decreases words.len() - i,
    {
        let ghost ws = views(words@).skip(i as int);
        assert(ws[0] == words@[i as int]@);
        assert(ws.drop_first() =~= views(words@).skip(i + 1));
        if has_prefix(t, &words[i]) {
            let r = subvec(t, words[i].len(), t.len());
            assert(r@ =~= t@.skip(words@[i as int]@.len() as int));
            let c = capture_colon(&r);
            if c.is_some() {
                return c;
            }
        }
        i += 1;
    }
    assert(views(words@).skip(i as int).len() == 0);
    None
}

fn match_time_verb_rest(t: &Vec<char>, times: &Vec<Vec<char>>, verbs: &Vec<Vec<char>>) -> (o: Option<
    Vec<char>,
>)
    ensures
        opt_chars(o) == time_verb_rest(t@, views(times@), views(verbs@)),
{
    assert(views(times@).skip(0) =~= views(times@));
    let mut i: usize = 0;
    while i < times.len()
        invariant
            i <= times.len(),
            time_verb_rest(t@, views(times@), views(verbs@)) == time_verb_rest(
                t@,
                views(times@).skip(i as int),
                views(verbs@),
            ),
        decreases times.len() - i,
    {
        let ghost ws = views(times@).skip(i as int);
        assert(ws[0] == times@[i as int]@);
        assert(ws.drop_first() =~= views(times@).skip(i + 1));
        if has_prefix(t, &times[i]) {
            let r = subvec(t, times[i].len(), t.len());
            assert(r@ =~= t@.skip(times@[i as int]@.len() as int));
            let m = count_ws_prefix(&r, 0);
            assert(r@.skip(0) =~= r@);
            let s = subvec(&r, m, r.len());
            assert(s@ =~= r@.skip(m as int));
            let c = match_alts_rest(&s, verbs);
            if c.is_some() {
                return c;
            }
        }
        i += 1;
    }
    assert(views(times@).skip(i as int).len() == 0);
    None
}

fn head_before_done_exec(c: &Vec<char>) -> (o: Option<Vec<char>>)
    ensures
        opt_chars(o) == head_before_done(c@),
{
    if has_char(c, '\n') {
        return None;
    }
    let n = c.len();
    if n >= 2 && c[n - 1] == '做' {
        let h = subvec(c, 0, n - 1);
        assert(h@ =~= c@.drop_last());
        Some(h)
    } else if n >= 3 && ((c[n - 2] == '完' && c[n - 1] == '成') || (c[n - 2] == '处' && c[n - 1]
        == '理') || (c[n - 2] == '解' && c[n - 1] == '决')) {
        let h = subvec(c, 0, n - 2);
        assert(h@ =~= c@.take(n - 2));
        Some(h)
    } else {
        None
    }
}

fn capture_done(r: &Vec<char>, k: usize) -> (o: Option<Vec<char>>)
    requires
        k <= r.len(),
    ensures
        opt_chars(o) == done_capture(r@, k as nat),
{
    let mut j = k;
    loop
        invariant
            j <= k <= r.len(),
            done_capture(r@, k as nat) == done_capture(r@, j as nat),
        decreases j,
    {
        let c = subvec(r, j, r.len());
        assert(c@ =~= r@.skip(j as int));
        let h = head_before_done_exec(&c);
        if h.is_some() {
            return h;
        }
        if j == 0 {
            return None;
        }
        j -= 1;
    }
}

fn match_done_rest(t: &Vec<char>, words: &Vec<Vec<char>>) -> (o: Option<Vec<char>>)
    ensures
        opt_chars(o) == done_rest(t@, views(words@)),
{
    assert(views(words@).skip(0) =~= views(words@));
    let mut i: usize = 0;
    while i < words.len()
        invariant
            i <= words.len(),
            done_rest(t@, views(words@)) == done_rest(t@, views(words@).skip(i as int)),
        decreases words.len() - i,
    {
        let ghost ws = views(words@).skip(i as int);
        assert(ws[0] == words@[i as int]@);
        assert(ws.drop_first() =~= views(words@).skip(i + 1));
        if has_prefix(t, &words[i]) {
            let r = subvec(t, words[i].len(), t.len());
            assert(r@ =~= t@.skip(words@[i as int]@.len() as int));
            let m = count_ws_prefix(&r, 0);
            assert(r@.skip(0) =~= r@);
            let c = capture_done(&r, m);
            if c.is_some() {
                return c;
            }
        }
        i += 1;
    }
    assert(views(words@).skip(i as int).len() == 0);
    None
}

fn match_todo(t: &Vec<char>) -> (o: Option<Vec<char>>)
    ensures
        opt_chars(o) == todo_capture(t@),
{
    let c = match_colon_rest(t, &marker_list());
    if c.is_some() {
        return c;
    }
    let c = match_alts_rest(t, &remember_list());
    if c.is_some() {
        return c;
    }
    let c = match_alts_rest(t, &need_list());
    if c.is_some() {
        return c;
    }
    let c = match_alts_rest(t, &plan_list());
    if c.is_some() {
        return c;
    }
    let c = match_alts_rest(t, &action_list());
    if c.is_some() {
        return c;
    }
    let c = match_alts_rest(t, &reminder_list());
    if c.is_some() {
        return c;
    }
    let c = match_time_verb_rest(t, &time_list(), &time_verb_list());
    if c.is_some() {
        return c;
    }
    let c = match_done_rest(t, &need_done_list());
    if c.is_some() {
        return c;
    }
    match_alts_rest(t, &time_need_list())
}

fn imperative_chars(t: &Vec<char>) -> (r: bool)
    ensures
        r == imperative(t@),
{
    let starts = imperative_list();
    let mut i: usize = 0;
    while i < starts.len()
        invariant
            i <= starts.len(),
            views(starts@) == imperative_starts(),
            forall|k: int|
                0 <= k < i ==> !(starts_with(t@, #[trigger] imperative_starts()[k]) && utf8_len(t@)
                    > utf8_len(imperative_starts()[k]) + 3),
        decreases starts.len() - i,
    {
        let p = &starts[i];
        assert(imperative_starts()[i as int] == p@);
        if has_prefix(t, p) {
            let rest = utf8_len_capped(t, p.len(), t.len(), 4);
            proof {
                assert(t@ =~= p@ + t@.subrange(p@.len() as int, t@.len() as int));
                lemma_utf8_len_concat(p@, t@.subrange(p@.len() as int, t@.len() as int));
            }
            if rest >= 4 {
                return true;
            }
        }
        i += 1;
    }
    false
}

/// Whether `text` opens with an imperative word (请, 去, 把, 联系, 提交, ...)
/// and is more than three UTF-8 bytes longer than that word.
pub fn is_imperative_sentence(text: &str) -> (r: bool)
    ensures
        r == imperative(text@),
{
    let v = str_chars(text);
    imperative_chars(&v)
}

fn todo_of_chars(v: &Vec<char>) -> (o: Option<Vec<char>>)
    ensures
        opt_chars(o) == todo_of(v@),
{
    let (a, b) = trim_bounds(v);
    let t = subvec(v, a, b);
    let len = utf8_len_capped(&t, 0, t.len(), 201);
    assert(t@.subrange(0, t@.len() as int) =~= t@);
    if len < 3 || len > 200 {
        return None;
    }
    match match_todo(&t) {
        Some(c) => {
            let (ca, cb) = trim_bounds(&c);
            Some(subvec(&c, ca, cb))
        },
        None => {
            if imperative_chars(&t) {
                Some(t)
            } else {
                None
            }
        },
    }
}

/// Extracts a single to-do item from one line of text.
pub fn extract_todo_from_text(text: &str) -> (r: Option<String>)
    ensures
        opt_string(r) == todo_of(text@),
{
    let v = str_chars(text);
    match todo_of_chars(&v) {
        Some(c) => Some(string_of(&c)),
        None => None,
    }
}

// ---------------------------------------------------------------------------
// Sessions of several lines
// ---------------------------------------------------------------------------

/// Index of the first line feed in `s`, or its length when there is none.
pub open spec fn first_newline(s: Seq<char>) -> nat
    decreases s.len(),
{
    if s.len() == 0 {
        0
    } else if s[0] == '\n' {
        0
    } else {
        1 + first_newline(s.drop_first())
    }
}

pub proof fn lemma_first_newline(s: Seq<char>)
    ensures
        first_newline(s) <= s.len(),
        first_newline(s) < s.len() ==> s[first_newline(s) as int] == '\n',
        forall|i: int| 0 <= i < first_newline(s) ==> s[i] != '\n',
    decreases s.len(),
{
    if s.len() > 0 && s[0] != '\n' {
        lemma_first_newline(s.drop_first());
        assert forall|i: int| 0 <= i < first_newline(s) implies s[i] != '\n' by {
            if i > 0 {
                assert(s[i] == s.drop_first()[i - 1]);
            }
        }
    }
}

/// A line without the carriage return that ends it, if any.
pub open spec fn strip_cr(l: Seq<char>) -> Seq<char> {
    if l.len() > 0 && l.last() == '\r' {
        l.drop_last()
    } else {
        l
    }
}

/// The lines of `s` as `str::lines` gives them: split at line feeds, a
/// carriage return before a line feed dropped, no empty line after a final
/// line feed.
pub open spec fn split_lines(s: Seq<char>) -> Seq<Seq<char>>
    decreases s.len(),
{
    if s.len() == 0 {
        seq![]
    } else {
        let k = first_newline(s);
        proof {
            lemma_first_newline(s);
        }
        if k < s.len() {
            seq![strip_cr(s.take(k as int))] + split_lines(s.skip(k + 1 as int))
        } else {
            seq![s]
        }
    }
}

/// The to-do items of `lines`, in order of first appearance, each kept once.
pub open spec fn collect_todos(lines: Seq<Seq<char>>) -> Seq<Seq<char>>
    decreases lines.len(),
{
    if lines.len() == 0 {
        seq![]
    } else {
        let prev = collect_todos(lines.drop_last());
        match todo_of(lines.last()) {
            Some(x) => if prev.contains(x) {
                prev
            } else {
                prev.push(x)
            },
            None => prev,
        }
    }
}

/// The to-do items of a session buffer.
pub open spec fn session_todos(text: Seq<char>) -> Seq<Seq<char>> {
    collect_todos(split_lines(text))
}

/// Extracts the to-do items of every line of `text`, each distinct item once,
/// in order of first appearance.
pub fn extract_todos_from_session(text: &str) -> (r: Vec<String>)
    ensures
        string_views(r@) == session_todos(text@),
{
    let v = str_chars(text);
    let ghost s = v@;
    let mut found: Vec<Vec<char>> = Vec::new();
    let ghost mut done: Seq<Seq<char>> = seq![];
    let mut pos: usize = 0;
    assert(s.skip(0) =~= s);
    assert(done + split_lines(s) =~= split_lines(s));
    while pos < v.len()
        invariant
            s == v@,
            pos <= v.len(),
            done + split_lines(s.skip(pos as int)) == split_lines(s),
            views(found@) == collect_todos(done),
        decreases v.len() - pos,
    {
        let mut j = pos;
        while j < v.len() && v[j] != '\n'
            invariant
                pos <= j <= v.len(),
                s == v@,
                first_newline(s.skip(pos as int)) == (j - pos) + first_newline(s.skip(j as int)),
            decreases v.len() - j,
        {
            assert(s.skip(j as int).drop_first() =~= s.skip(j + 1));
            j += 1;
        }
        let ghost rest = s.skip(pos as int);
        let line;
        if j < v.len() {
            let mut end = j;
            if end > pos && v[end - 1] == '\r' {
                end = end - 1;
            }
            line = subvec(&v, pos, end);
            assert(line@ =~= strip_cr(rest.take((j - pos) as int)));
            assert(rest.skip((j - pos) + 1) =~= s.skip(j + 1));
            assert(split_lines(rest) == seq![line@] + split_lines(s.skip(j + 1)));
            pos = j + 1;
        } else {
            line = subvec(&v, pos, v.len());
            assert(line@ =~= rest);
            assert(s.skip(j as int).len() == 0);
            assert(split_lines(rest) == seq![line@]);
            pos = v.len();
            assert(s.skip(pos as int) =~= Seq::<char>::empty());
        }
        let ghost before = done;
        proof {
            done = done.push(line@);
            assert(done.drop_last() =~= before);
            assert(before + split_lines(rest) =~= done + split_lines(s.skip(pos as int)));
        }
        match todo_of_chars(&line) {
            Some(x) => {
                if !is_listed(&x, &found) {
                    found.push(x);
                    assert(views(found@) =~= collect_todos(before).push(x@));
                } else {
                    assert(collect_todos(before).contains(x@)) by {
                        let i = choose|i: int| 0 <= i < found@.len() && found@[i]@ == x@;
                        assert(views(found@)[i] == x@);
                    }
                }
            },
            None => {},
        }
    }
    assert(s.skip(pos as int).len() == 0);
    assert(done =~= done + split_lines(s.skip(pos as int)));
    let mut out: Vec<String> = Vec::new();
    let mut i: usize = 0;
    while i < found.len()
        invariant
            i <= found.len(),
            views(found@) == session_todos(s),
            s == text@,
            out@.len() == i,
            forall|k: int| 0 <= k < i ==> out@[k]@ == found@[k]@,
        decreases found.len() - i,
    {
        out.push(string_of(&found[i]));
        i += 1;
    }
    assert(string_views(out@) =~= views(found@));
    out
}

} // verus!
