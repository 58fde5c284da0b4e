//! Administrator access: the admin list, sessions from cookies, admin list
//! edits and API keys.
use vstd::prelude::*;

use crate::external::{json_string_list, parse_string_list};
use crate::text::{
    chars_from, chars_of, copy_strings, has_prefix, split_chars, split_on, starts_with_chars,
    string_from_chars, strings_contain, trim, trim_chars, opt_view, is_ws, trim_start, trim_end,
};

verus! {

/// The administrators built into the service.
pub open spec fn spec_builtin_admins() -> Seq<Seq<char>> {
    seq![
        "fntp"@,
        "LengendXing"@,
        "sunchengxing"@,
        "chenyiqiu"@,
        "chenshiluan"@,
        "52bendy"@,
        "yokeay"@,
    ]
}

/// The built-in administrators.
pub fn builtin_admins() -> (r: Vec<String>)
    ensures
        r.deep_view() == spec_builtin_admins(),
{
    let r = vec![
        String::from_str("fntp"),
        String::from_str("LengendXing"),
        String::from_str("sunchengxing"),
        String::from_str("chenyiqiu"),
        String::from_str("chenshiluan"),
        String::from_str("52bendy"),
        String::from_str("yokeay"),
    ];
    assert(r.deep_view() =~= spec_builtin_admins());
    r
}

/// The built-in administrators are listed once each.
pub proof fn lemma_builtin_admins_distinct()
    ensures
        spec_builtin_admins().no_duplicates(),
{
    reveal_strlit("fntp");
    reveal_strlit("LengendXing");
    reveal_strlit("sunchengxing");
    reveal_strlit("chenyiqiu");
    reveal_strlit("chenshiluan");
    reveal_strlit("52bendy");
    reveal_strlit("yokeay");
    let s = spec_builtin_admins();
    assert(s[1][0] != s[4][0]);
    assert forall|i: int, j: int| 0 <= i < s.len() && 0 <= j < s.len() && i != j implies s[i] != s[j] by {
        if (i == 1 && j == 4) || (i == 4 && j == 1) {
            assert(s[i][0] != s[j][0]);
        } else {
            assert(s[i].len() != s[j].len());
        }
    }
}

/// "Not in the list".
pub open spec fn not_in(list: Seq<Seq<char>>) -> spec_fn(Seq<char>) -> bool {
    |u: Seq<char>| !list.contains(u)
}

/// `acc` extended by the dynamic admins, in order, skipping those already
/// listed and those blocked.
pub open spec fn add_dynamic(acc: Seq<Seq<char>>, dynamic: Seq<Seq<char>>, blocked: Seq<Seq<char>>) -> Seq<Seq<char>>
    decreases dynamic.len(),
{
    if dynamic.len() == 0 {
        acc
    } else {
        let a = add_dynamic(acc, dynamic.drop_last(), blocked);
        let u = dynamic.last();
        if !a.contains(u) && !blocked.contains(u) {
            a.push(u)
        } else {
            a
        }
    }
}

/// The effective administrators: the built-in ones that are not blocked,
/// then the dynamic ones that are neither listed already nor blocked.
pub open spec fn spec_all_admins(
    builtin: Seq<Seq<char>>,
    blocked: Seq<Seq<char>>,
    dynamic: Seq<Seq<char>>,
) -> Seq<Seq<char>> {
    add_dynamic(builtin.filter(not_in(blocked)), dynamic, blocked)
}

/// The effective administrators.
pub fn all_admins(builtin: &Vec<String>, blocked: &Vec<String>, dynamic: &Vec<String>) -> (r: Vec<
    String,
>)
    ensures
        r.deep_view() == spec_all_admins(builtin.deep_view(), blocked.deep_view(), dynamic.deep_view()),
{
    let ghost b = builtin.deep_view();
    let ghost bl = blocked.deep_view();
    let ghost d = dynamic.deep_view();
    let ghost pred = not_in(bl);
    let mut admins: Vec<String> = Vec::new();
    let mut i: usize = 0;
    while i < builtin.len()
        invariant
            i <= b.len(),
            b == builtin.deep_view(),
            bl == blocked.deep_view(),
            pred == not_in(bl),
            admins.deep_view() == b.take(i as int).filter(pred),
        decreases builtin.len() - i,
    {
        let ghost before = admins.deep_view();
        proof {
            crate::text::lemma_filter_push(b.take(i as int), pred, b[i as int]);
            assert(b.take(i + 1) == b.take(i as int).push(b[i as int]));
        }
        if !strings_contain(blocked, builtin[i].as_str()) {
            admins.push(builtin[i].clone());
            assert(admins.deep_view() =~= before.push(b[i as int]));
        }
        i = i + 1;
    }
    assert(b.take(b.len() as int) == b);
    let ghost base = admins.deep_view();
    let mut j: usize = 0;
    assert(add_dynamic(base, d.take(0), bl) == base);
    while j < dynamic.len()
        invariant
            j <= d.len(),
            d == dynamic.deep_view(),
            bl == blocked.deep_view(),
            admins.deep_view() == add_dynamic(base, d.take(j as int), bl),
        decreases dynamic.len() - j,
    {
        let ghost before = admins.deep_view();
        assert(d.take(j + 1).drop_last() == d.take(j as int));
        assert(d.take(j + 1).last() == d[j as int]);
        let u = &dynamic[j];
        if !strings_contain(&admins, u.as_str()) && !strings_contain(blocked, u.as_str()) {
            admins.push(u.clone());
            assert(admins.deep_view() =~= before.push(d[j as int]));
        }
        j = j + 1;
    }
    assert(d.take(d.len() as int) == d);
    admins
}

/// Membership in `add_dynamic`.
proof fn lemma_add_dynamic_contains(
    acc: Seq<Seq<char>>,
    dynamic: Seq<Seq<char>>,
    blocked: Seq<Seq<char>>,
    u: Seq<char>,
)
    ensures
        add_dynamic(acc, dynamic, blocked).contains(u) <==> (acc.contains(u) || (dynamic.contains(u)
            && !blocked.contains(u))),
    decreases dynamic.len(),
{
    if dynamic.len() > 0 {
        let init = dynamic.drop_last();
        lemma_add_dynamic_contains(acc, init, blocked, u);
        let a = add_dynamic(acc, init, blocked);
        let v = dynamic.last();
        if dynamic.contains(u) && !init.contains(u) {
            let k = choose|k: int| 0 <= k < dynamic.len() && dynamic[k] == u;
            if k < init.len() {
                assert(init[k] == u);
            }
        }
        if init.contains(u) {
            let k = choose|k: int| 0 <= k < init.len() && init[k] == u;
            assert(dynamic[k] == u);
        }
        if !a.contains(v) && !blocked.contains(v) {
            assert(a.push(v)[a.len() as int] == v);
            if a.push(v).contains(u) && u != v {
                let k = choose|k: int| 0 <= k < a.push(v).len() && a.push(v)[k] == u;
                assert(a[k] == u);
            }
            if a.contains(u) {
                let k = choose|k: int| 0 <= k < a.len() && a[k] == u;
                assert(a.push(v)[k] == u);
            }
        }
        assert(dynamic[dynamic.len() - 1] == v);
    }
}

/// Who is an administrator: exactly the built-in and the dynamic admins
/// that are not blocked.
pub proof fn lemma_admin_membership(
    builtin: Seq<Seq<char>>,
    blocked: Seq<Seq<char>>,
    dynamic: Seq<Seq<char>>,
    u: Seq<char>,
)
    ensures
        spec_all_admins(builtin, blocked, dynamic).contains(u) <==> ((builtin.contains(u)
            || dynamic.contains(u)) && !blocked.contains(u)),
{
    let p = not_in(blocked);
    lemma_add_dynamic_contains(builtin.filter(p), dynamic, blocked, u);
    if builtin.filter(p).contains(u) {
        builtin.lemma_filter_contains_rev(p, u);
        let k = choose|k: int| 0 <= k < builtin.filter(p).len() && builtin.filter(p)[k] == u;
        builtin.lemma_filter_pred(p, k);
    }
    if builtin.contains(u) && !blocked.contains(u) {
        let k = choose|k: int| 0 <= k < builtin.len() && builtin[k] == u;
        builtin.lemma_filter_contains(p, k);
    }
}

proof fn lemma_filter_no_dup(s: Seq<Seq<char>>, p: spec_fn(Seq<char>) -> bool)
    requires
        s.no_duplicates(),
    ensures
        s.filter(p).no_duplicates(),
    decreases s.len(),
{
    reveal(Seq::filter);
    if s.len() > 0 {
        let init = s.drop_last();
        assert forall|i: int, j: int|
            0 <= i < init.len() && 0 <= j < init.len() && i != j implies init[i] != init[j] by {
            assert(init[i] == s[i] && init[j] == s[j]);
        }
        lemma_filter_no_dup(init, p);
        if p(s.last()) {
            let f = init.filter(p);
            if f.contains(s.last()) {
                init.lemma_filter_contains_rev(p, s.last());
                let k = choose|k: int| 0 <= k < init.len() && init[k] == s.last();
                assert(s[k] == s[s.len() - 1]);
            }
            assert forall|i: int, j: int|
                0 <= i < f.push(s.last()).len() && 0 <= j < f.push(s.last()).len() && i != j implies f.push(
                s.last(),
            )[i] != f.push(s.last())[j] by {
                if i < f.len() && j < f.len() {
                } else if i < f.len() {
                    assert(f.push(s.last())[i] == f[i]);
                } else {
                    assert(f.push(s.last())[j] == f[j]);
                }
            }
        }
    }
}

proof fn lemma_add_dynamic_no_dup(acc: Seq<Seq<char>>, dynamic: Seq<Seq<char>>, blocked: Seq<Seq<char>>)
    requires
        acc.no_duplicates(),
    ensures
        add_dynamic(acc, dynamic, blocked).no_duplicates(),
    decreases dynamic.len(),
{
    if dynamic.len() > 0 {
        lemma_add_dynamic_no_dup(acc, dynamic.drop_last(), blocked);
        let a = add_dynamic(acc, dynamic.drop_last(), blocked);
        let v = dynamic.last();
        if !a.contains(v) && !blocked.contains(v) {
            assert forall|i: int, j: int|
                0 <= i < a.push(v).len() && 0 <= j < a.push(v).len() && i != j implies a.push(v)[i]
                != a.push(v)[j] by {
                if i < a.len() && j < a.len() {
                } else if i < a.len() {
                    assert(a.push(v)[i] == a[i]);
                } else {
                    assert(a.push(v)[j] == a[j]);
                }
            }
        }
    }
}

/// No administrator is listed twice when the built-in list has no repeats.
pub proof fn lemma_admins_distinct(
    builtin: Seq<Seq<char>>,
    blocked: Seq<Seq<char>>,
    dynamic: Seq<Seq<char>>,
)
    requires
        builtin.no_duplicates(),
    ensures
        spec_all_admins(builtin, blocked, dynamic).no_duplicates(),
{
    lemma_filter_no_dup(builtin, not_in(blocked));
    lemma_add_dynamic_no_dup(builtin.filter(not_in(blocked)), dynamic, blocked);
}


/// The cookie name with its `=`.
pub open spec fn session_prefix() -> Seq<char> {
    "bmsg_session="@
}

/// The session id that one cookie pair carries: after trimming, a pair
/// `bmsg_session=<value>` gives its value.
pub open spec fn cookie_value(pair: Seq<char>) -> Option<Seq<char>> {
    let t = trim(pair);
    if has_prefix(t, session_prefix()) {
        Some(t.skip(session_prefix().len() as int))
    } else {
        None
    }
}

/// The first session id among the cookie pairs.
pub open spec fn first_cookie(pairs: Seq<Seq<char>>) -> Option<Seq<char>>
    decreases pairs.len(),
{
    if pairs.len() == 0 {
        None
    } else {
        match cookie_value(pairs[0]) {
            Some(v) => Some(v),
            None => first_cookie(pairs.drop_first()),
        }
    }
}

/// The session id in a `Cookie` header: the value of the first
/// `bmsg_session` pair among the `;`-separated pairs.
pub open spec fn spec_session_cookie(header: Seq<char>) -> Option<Seq<char>> {
    first_cookie(split_on(header, ';'))
}

/// Reads the session id out of a `Cookie` header value.
pub fn session_cookie(header: &str) -> (r: Option<String>)
    ensures
        opt_view(r) == spec_session_cookie(header@),
{
    let cs = chars_of(header);
    let pairs = split_chars(&cs, ';');
    let ghost segs = split_on(cs@, ';');
    let prefix = chars_of("bmsg_session=");
    let mut i: usize = 0;
    assert(segs.skip(0) =~= segs);
    while i < pairs.len()
        invariant
            i <= pairs@.len(),
            pairs@.len() == segs.len(),
            forall|k: int| 0 <= k < pairs@.len() ==> #[trigger] pairs@[k]@ == segs[k],
            prefix@ == session_prefix(),
            segs == split_on(header@, ';'),
            first_cookie(segs) == first_cookie(segs.skip(i as int)),
        decreases pairs.len() - i,
    {
        let t = trim_chars(&pairs[i]);
        assert(segs.skip(i as int)[0] == segs[i as int]);
        if starts_with_chars(&t, &prefix) {
            let value = chars_from(&t, prefix.len());
            assert(cookie_value(segs[i as int]) == Some(value@));
            assert(segs.skip(i as int).len() > 0);
            assert(first_cookie(segs.skip(i as int)) == Some(value@));
            return Some(string_from_chars(&value));
        }
        assert(segs.skip(i as int).drop_first() =~= segs.skip(i + 1));
        i = i + 1;
    }
    None
}

proof fn lemma_split_without_sep(s: Seq<char>, sep: char)
    requires
        !s.contains(sep),
    ensures
        split_on(s, sep) == seq![s],
    decreases s.len(),
{
    if s.len() > 0 {
        let init = s.drop_last();
        assert forall|k: int| 0 <= k < init.len() implies init[k] != sep by {
            assert(init[k] == s[k]);
        }
        lemma_split_without_sep(init, sep);
        assert(s[s.len() - 1] != sep);
        assert(init.push(s.last()) =~= s);
    } else {
        assert(s =~= Seq::<char>::empty());
    }
}

/// A `Cookie` header that holds just the session pair gives back the
/// session id, for ids without `;` that do not end in white space.
pub proof fn lemma_session_cookie_roundtrip(sid: Seq<char>)
    requires
        !sid.contains(';'),
        sid.len() == 0 || !is_ws(sid.last()),
    ensures
        spec_session_cookie(session_prefix() + sid) == Some(sid),
{
    reveal_strlit("bmsg_session=");
    let h = session_prefix() + sid;
    assert forall|k: int| 0 <= k < h.len() implies h[k] != ';' by {
        if k >= 13 {
            assert(h[k] == sid[k - 13]);
        }
    }
    lemma_split_without_sep(h, ';');
    assert(!is_ws(h[0]));
    assert(trim_start(h) == h);
    assert(!is_ws(h.last())) by {
        if sid.len() == 0 {
            assert(h.last() == '=');
        } else {
            assert(h.last() == sid.last());
        }
    }
    assert(trim_end(h) == h);
    assert(h.take(13) =~= session_prefix());
    assert(h.skip(13) =~= sid);
    assert(seq![h].drop_first() =~= Seq::<Seq<char>>::empty());
}

/// A login session.
#[derive(Debug)]
pub struct Session {
    pub username: String,
    pub created_at: i64,
}

/// The user a session authenticates: its user when that user is an
/// administrator.
pub fn check_auth(session: Option<Session>, admins: &Vec<String>) -> (r: Option<String>)
    ensures
        opt_view(r) == match session {
            Some(s) => if admins.deep_view().contains(s.username@) {
                Some(s.username@)
            } else {
                None
            },
            None => None,
        },
{
    match session {
        Some(s) => {
            if strings_contain(admins, s.username.as_str()) {
                Some(s.username)
            } else {
                None
            }
        },
        None => None,
    }
}

/// A change to the stored admin lists.
#[derive(Debug)]
pub enum AdminUpdate {
    /// The request is refused (no username): code 1003, "username required".
    Rejected,
    /// Store this list as the dynamic admins.
    SetDynamic(Vec<String>),
    /// Store this list as the blocked built-in admins.
    SetBlocked(Vec<String>),
}

/// The dynamic admins after adding `u`: unchanged when `u` is already a
/// dynamic or built-in admin.
pub open spec fn spec_added(u: Seq<char>, dynamic: Seq<Seq<char>>, builtin: Seq<Seq<char>>) -> Seq<Seq<char>> {
    if dynamic.contains(u) || builtin.contains(u) {
        dynamic
    } else {
        dynamic.push(u)
    }
}

/// "Not equal to `u`".
pub open spec fn other_than(u: Seq<char>) -> spec_fn(Seq<char>) -> bool {
    |x: Seq<char>| x != u
}

/// The lists after removing `u`: a built-in admin is blocked, a dynamic one
/// dropped. Returns (blocked, dynamic).
pub open spec fn spec_removed(
    u: Seq<char>,
    blocked: Seq<Seq<char>>,
    dynamic: Seq<Seq<char>>,
    builtin: Seq<Seq<char>>,
) -> (Seq<Seq<char>>, Seq<Seq<char>>) {
    if builtin.contains(u) {
        (if blocked.contains(u) {
            blocked
        } else {
            blocked.push(u)
        }, dynamic)
    } else {
        (blocked, dynamic.filter(other_than(u)))
    }
}

/// The update for a request to add admin `username`.
pub fn add_admin_update(username: &str, dynamic: &Vec<String>, builtin: &Vec<String>) -> (r:
    AdminUpdate)
    ensures
        username@.len() == 0 ==> r is Rejected,
        username@.len() > 0 ==> (r matches AdminUpdate::SetDynamic(d) && d.deep_view() == spec_added(
            username@,
            dynamic.deep_view(),
            builtin.deep_view(),
        )),
{
    if username.is_empty() {
        return AdminUpdate::Rejected;
    }
    let mut d = copy_strings(dynamic);
    if !strings_contain(dynamic, username) && !strings_contain(builtin, username) {
        let ghost before = d.deep_view();
        d.push(String::from_str(username));
        assert(d.deep_view() =~= before.push(username@));
    }
    AdminUpdate::SetDynamic(d)
}

/// The list without the entries equal to `u`.
fn strings_without(v: &Vec<String>, u: &str) -> (r: Vec<String>)
    ensures
        r.deep_view() == v.deep_view().filter(other_than(u@)),
{
    let ghost s = v.deep_view();
    let ghost pred = other_than(u@);
    let mut r: Vec<String> = Vec::new();
    let mut i: usize = 0;
    while i < v.len()
        invariant
            i <= s.len(),
            s == v.deep_view(),
            pred == other_than(u@),
            r.deep_view() == s.take(i as int).filter(pred),
        decreases v.len() - i,
    {
        let ghost before = r.deep_view();
        proof {
            crate::text::lemma_filter_push(s.take(i as int), pred, s[i as int]);
            assert(s.take(i + 1) == s.take(i as int).push(s[i as int]));
        }
        if !crate::text::str_eq(v[i].as_str(), u) {
            r.push(v[i].clone());
            assert(r.deep_view() =~= before.push(s[i as int]));
        }
        i = i + 1;
    }
    assert(s.take(s.len() as int) == s);
    r
}

/// The update for a request to remove admin `username`: a built-in admin is
/// blocked, a dynamic admin is dropped from the dynamic list.
pub fn remove_admin_update(
    username: &str,
    blocked: &Vec<String>,
    dynamic: &Vec<String>,
    builtin: &Vec<String>,
) -> (r: AdminUpdate)
    ensures
        username@.len() == 0 ==> r is Rejected,
        username@.len() > 0 && builtin.deep_view().contains(username@) ==> (r matches AdminUpdate::SetBlocked(
            b,
        ) && b.deep_view() == spec_removed(
            username@,
            blocked.deep_view(),
            dynamic.deep_view(),
            builtin.deep_view(),
        ).0),
        username@.len() > 0 && !builtin.deep_view().contains(username@) ==> (r matches AdminUpdate::SetDynamic(
            d,
        ) && d.deep_view() == spec_removed(
            username@,
            blocked.deep_view(),
            dynamic.deep_view(),
            builtin.deep_view(),
        ).1),
{
    if username.is_empty() {
        return AdminUpdate::Rejected;
    }
    if strings_contain(builtin, username) {
        let mut b = copy_strings(blocked);
        if !strings_contain(blocked, username) {
            let ghost before = b.deep_view();
            b.push(String::from_str(username));
            assert(b.deep_view() =~= before.push(username@));
        }
        AdminUpdate::SetBlocked(b)
    } else {
        AdminUpdate::SetDynamic(strings_without(dynamic, username))
    }
}

/// A removed administrator is no longer an administrator.
pub proof fn lemma_removed_admin_loses_access(
    u: Seq<char>,
    builtin: Seq<Seq<char>>,
    blocked: Seq<Seq<char>>,
    dynamic: Seq<Seq<char>>,
)
    ensures
        ({
            let (b2, d2) = spec_removed(u, blocked, dynamic, builtin);
            !spec_all_admins(builtin, b2, d2).contains(u)
        }),
{
    let (b2, d2) = spec_removed(u, blocked, dynamic, builtin);
    lemma_admin_membership(builtin, b2, d2, u);
    if builtin.contains(u) {
        if !blocked.contains(u) {
            assert(blocked.push(u)[blocked.len() as int] == u);
        }
    } else {
        let p = other_than(u);
        if dynamic.filter(p).contains(u) {
            let k = choose|k: int| 0 <= k < dynamic.filter(p).len() && dynamic.filter(p)[k] == u;
            dynamic.lemma_filter_pred(p, k);
        }
    }
}

/// An added administrator who is not blocked is an administrator.
pub proof fn lemma_added_admin_gains_access(
    u: Seq<char>,
    builtin: Seq<Seq<char>>,
    blocked: Seq<Seq<char>>,
    dynamic: Seq<Seq<char>>,
)
    requires
        !blocked.contains(u),
    ensures
        spec_all_admins(builtin, blocked, spec_added(u, dynamic, builtin)).contains(u),
{
    let d2 = spec_added(u, dynamic, builtin);
    lemma_admin_membership(builtin, blocked, d2, u);
    if !(dynamic.contains(u) || builtin.contains(u)) {
        assert(dynamic.push(u)[dynamic.len() as int] == u);
    }
}


/// An API key that services register with.
#[derive(Debug)]
pub struct ApiKey {
    pub id: String,
    pub name: String,
    pub key: String,
    pub created_at: i64,
}

impl Clone for ApiKey {
    fn clone(&self) -> (r: Self)
        ensures
            r == *self,
    {
        ApiKey {
            id: self.id.clone(),
            name: self.name.clone(),
            key: self.key.clone(),
            created_at: self.created_at,
        }
    }
}

/// Whether some key has the given value.
pub open spec fn key_known(keys: Seq<ApiKey>, secret: Seq<char>) -> bool {
    exists|i: int| 0 <= i < keys.len() && #[trigger] keys[i].key@ == secret
}

/// Whether `secret` is the value of a known API key.
pub fn validate_api_key(secret: &str, keys: &Vec<ApiKey>) -> (r: bool)
    ensures
        r == key_known(keys@, secret@),
{
    let mut i: usize = 0;
    while i < keys.len()
        invariant
            i <= keys@.len(),
            forall|j: int| 0 <= j < i ==> #[trigger] keys@[j].key@ != secret@,
        decreases keys.len() - i,
    {
        if crate::text::str_eq(keys[i].key.as_str(), secret) {
            return true;
        }
        i = i + 1;
    }
    false
}

/// "Not a dash".
pub open spec fn not_dash() -> spec_fn(char) -> bool {
    |c: char| c != '-'
}

/// The value of a new API key: `bmsg_` and the UUID without its dashes.
pub open spec fn spec_key_text(uuid: Seq<char>) -> Seq<char> {
    "bmsg_"@ + uuid.filter(not_dash())
}

/// `format!("bmsg_{}", uuid.replace('-', ""))`.
pub fn api_key_text(uuid: &str) -> (r: String)
    ensures
        r@ == spec_key_text(uuid@),
{
    let cs = chars_of(uuid);
    let ghost pred = not_dash();
    let mut kept: Vec<char> = Vec::new();
    let mut i: usize = 0;
    while i < cs.len()
        invariant
            i <= cs@.len(),
            pred == not_dash(),
            kept@ == cs@.take(i as int).filter(pred),
        decreases cs.len() - i,
    {
        proof {
            crate::text::lemma_filter_push(cs@.take(i as int), pred, cs@[i as int]);
            assert(cs@.take(i + 1) == cs@.take(i as int).push(cs@[i as int]));
        }
        if cs[i] != '-' {
            kept.push(cs[i]);
        }
        i = i + 1;
    }
    assert(cs@.take(cs@.len() as int) == cs@);
    let rest = string_from_chars(&kept);
    String::from_str("bmsg_").concat(rest.as_str())
}

/// The keys after creating one: the list with the new key appended.
/// Refused (`None`, code 1003 "name required") when the name is empty;
/// otherwise also gives the new key's value.
pub fn create_key_update(
    name: &str,
    keys: &Vec<ApiKey>,
    id: String,
    key_uuid: &str,
    now: i64,
) -> (r: Option<(Vec<ApiKey>, String)>)
    ensures
        name@.len() == 0 <==> r is None,
        r matches Some((ks, k)) ==> {
            &&& k@ == spec_key_text(key_uuid@)
            &&& ks@.len() == keys@.len() + 1
            &&& ks@.take(keys@.len() as int) == keys@
            &&& ks@.last().id == id
            &&& ks@.last().name@ == name@
            &&& ks@.last().key@ == k@
            &&& ks@.last().created_at == now
        },
{
    if name.is_empty() {
        return None;
    }
    let key = api_key_text(key_uuid);
    let mut ks: Vec<ApiKey> = Vec::new();
    let mut i: usize = 0;
    while i < keys.len()
        invariant
            i <= keys@.len(),
            ks@ == keys@.take(i as int),
        decreases keys.len() - i,
    {
        ks.push(keys[i].clone());
        assert(ks@ =~= keys@.take(i + 1));
        i = i + 1;
    }
    let new_key = ApiKey { id, name: String::from_str(name), key: key.clone(), created_at: now };
    ks.push(new_key);
    assert(ks@.take(keys@.len() as int) =~= keys@);
    Some((ks, key))
}

/// "Its id is not `id`".
pub open spec fn id_other_than(id: Seq<char>) -> spec_fn(ApiKey) -> bool {
    |k: ApiKey| k.id@ != id
}

/// The value of the first key with this id, if any.
pub open spec fn key_of_id(keys: Seq<ApiKey>, id: Seq<char>) -> Option<Seq<char>>
    decreases keys.len(),
{
    if keys.len() == 0 {
        None
    } else if keys[0].id@ == id {
        Some(keys[0].key@)
    } else {
        key_of_id(keys.drop_first(), id)
    }
}

/// Deleting the key `id`: the keys without it, and the deleted key's value,
/// whose services are removed along with it.
pub fn delete_key_update(keys: &Vec<ApiKey>, id: &str) -> (r: (Vec<ApiKey>, Option<String>))
    ensures
        r.0@ == keys@.filter(id_other_than(id@)),
        opt_view(r.1) == key_of_id(keys@, id@),
{
    let ghost pred = id_other_than(id@);
    let mut found: Option<String> = None;
    let mut remaining: Vec<ApiKey> = Vec::new();
    let mut i: usize = 0;
    assert(keys@.skip(0) =~= keys@);
    while i < keys.len()
        invariant
            i <= keys@.len(),
            pred == id_other_than(id@),
            remaining@ == keys@.take(i as int).filter(pred),
            found is None ==> key_of_id(keys@, id@) == key_of_id(keys@.skip(i as int), id@),
            found is Some ==> opt_view(found) == key_of_id(keys@, id@),
        decreases keys.len() - i,
    {
        proof {
            crate::text::lemma_filter_push(keys@.take(i as int), pred, keys@[i as int]);
            assert(keys@.take(i + 1) == keys@.take(i as int).push(keys@[i as int]));
            assert(keys@.skip(i as int)[0] == keys@[i as int]);
            assert(keys@.skip(i as int).drop_first() =~= keys@.skip(i + 1));
        }
        if crate::text::str_eq(keys[i].id.as_str(), id) {
            if found.is_none() {
                found = Some(keys[i].key.clone());
            }
        } else {
            remaining.push(keys[i].clone());
        }
        i = i + 1;
    }
    assert(keys@.take(keys@.len() as int) == keys@);
    (remaining, found)
}

/// A newly created key is accepted.
pub proof fn lemma_created_key_validates(keys: Seq<ApiKey>, k: ApiKey)
    ensures
        key_known(keys.push(k), k.key@),
{
    assert(keys.push(k)[keys.len() as int] == k);
}

/// Once deleted, a key is refused, when no other key has the same value.
pub proof fn lemma_deleted_key_refused(keys: Seq<ApiKey>, id: Seq<char>)
    requires
        key_of_id(keys, id) is Some,
        forall|j: int|
            0 <= j < keys.len() && #[trigger] keys[j].key@ == key_of_id(keys, id)->0 ==> keys[j].id@
                == id,
    ensures
        !key_known(keys.filter(id_other_than(id)), key_of_id(keys, id)->0),
{
    let p = id_other_than(id);
    let f = keys.filter(p);
    let v = key_of_id(keys, id)->0;
    if key_known(f, v) {
        let i = choose|i: int| 0 <= i < f.len() && #[trigger] f[i].key@ == v;
        keys.lemma_filter_pred(p, i);
        keys.lemma_filter_contains_rev(p, f[i]);
        let j = choose|j: int| 0 <= j < keys.len() && keys[j] == f[i];
        assert(keys[j].key@ == v);
    }
}

/// The host name the service runs under.
pub open spec fn host() -> Seq<char> {
    "bendy-message.dabendi66.workers.dev"@
}

/// The key a session is stored under: `bmsg:session:<id>`.
pub fn session_store_key(session_id: &str) -> (r: String)
    ensures
        r@ == "bmsg:session:"@ + session_id@,
{
    String::from_str("bmsg:session:").concat(session_id)
}

/// The `Set-Cookie` value of a new session, kept for 86400 seconds.
pub fn session_set_cookie(session_id: &str) -> (r: String)
    ensures
        r@ == session_prefix() + session_id@
            + "; Path=/; HttpOnly; Secure; SameSite=Lax; Max-Age=86400"@,
{
    String::from_str("bmsg_session=").concat(session_id).concat(
        "; Path=/; HttpOnly; Secure; SameSite=Lax; Max-Age=86400",
    )
}

/// The `Set-Cookie` value that ends a session.
pub fn logout_set_cookie() -> (r: String)
    ensures
        r@ == "bmsg_session=; Path=/; HttpOnly; Secure; SameSite=Lax; Max-Age=0"@,
{
    String::from_str("bmsg_session=; Path=/; HttpOnly; Secure; SameSite=Lax; Max-Age=0")
}

/// Where the admin panel lives: `https://<host>/admin`.
pub fn admin_page_url() -> (r: String)
    ensures
        r@ == "https://"@ + host() + "/admin"@,
{
    String::from_str("https://").concat("bendy-message.dabendi66.workers.dev").concat("/admin")
}

/// The GitHub authorisation URL for this client, redirecting back to the
/// callback of this host and asking for `read:user`.
pub fn github_authorize_url(client_id: &str) -> (r: String)
    ensures
        r@ == "https://github.com/login/oauth/authorize?client_id="@ + client_id@
            + "&redirect_uri="@ + "https://"@ + host() + "/api/auth/github/callback"@
            + "&scope=read:user"@,
{
    String::from_str("https://github.com/login/oauth/authorize?client_id=").concat(client_id).concat(
        "&redirect_uri=",
    ).concat("https://").concat("bendy-message.dabendi66.workers.dev").concat(
        "/api/auth/github/callback",
    ).concat("&scope=read:user")
}


/// A stored admin list: the strings of a JSON array, or no one when the text
/// is missing or not such an array.
pub fn stored_admin_list(text: Option<&str>) -> (r: Vec<String>)
    ensures
        r.deep_view() == match text {
            Some(t) => match json_string_list(t@) {
                Some(list) => list,
                None => Seq::empty(),
            },
            None => Seq::<Seq<char>>::empty(),
        },
{
    match text {
        Some(t) => match parse_string_list(t) {
            Ok(list) => list,
            Err(_) => {
                let r: Vec<String> = Vec::new();
                assert(r.deep_view() =~= Seq::<Seq<char>>::empty());
                r
            },
        },
        None => {
            let r: Vec<String> = Vec::new();
            assert(r.deep_view() =~= Seq::<Seq<char>>::empty());
            r
        },
    }
}

/// Where an administrator comes from.
#[derive(Debug, Clone, Copy, PartialEq, Eq, Structural)]
pub enum AdminSource {
    Builtin,
    Dynamic,
}

impl AdminSource {
    /// `builtin` or `dynamic`.
    pub fn as_str(&self) -> (s: &str)
        ensures
            s@ == (match self {
                AdminSource::Builtin => "builtin"@,
                AdminSource::Dynamic => "dynamic"@,
            }),
    {
        match self {
            AdminSource::Builtin => "builtin",
            AdminSource::Dynamic => "dynamic",
        }
    }
}

/// The admin listing: every built-in admin, then every dynamic admin, each
/// with its source (blocked ones included, as the listing shows the lists).
pub fn admin_listing(builtin: &Vec<String>, dynamic: &Vec<String>) -> (r: Vec<(String, AdminSource)>)
    ensures
        r@.len() == builtin@.len() + dynamic@.len(),
        forall|i: int| 0 <= i < builtin@.len() ==> (#[trigger] r@[i]).0@ == builtin@[i]@ && r@[i].1
            == AdminSource::Builtin,
        forall|i: int|
            0 <= i < dynamic@.len() ==> (#[trigger] r@[builtin@.len() + i]).0@ == dynamic@[i]@
                && r@[builtin@.len() + i].1 == AdminSource::Dynamic,
{
    let mut r: Vec<(String, AdminSource)> = Vec::new();
    let mut i: usize = 0;
    while i < builtin.len()
        invariant
            i <= builtin@.len(),
            r@.len() == i,
            forall|k: int| 0 <= k < i ==> (#[trigger] r@[k]).0@ == builtin@[k]@ && r@[k].1
                == AdminSource::Builtin,
        decreases builtin.len() - i,
    {
        r.push((builtin[i].clone(), AdminSource::Builtin));
        i = i + 1;
    }
    let mut j: usize = 0;
    while j < dynamic.len()
        invariant
            j <= dynamic@.len(),
            r@.len() == builtin@.len() + j,
            forall|k: int| 0 <= k < builtin@.len() ==> (#[trigger] r@[k]).0@ == builtin@[k]@ && r@[k].1
                == AdminSource::Builtin,
            forall|k: int|
                0 <= k < j ==> (#[trigger] r@[builtin@.len() + k]).0@ == dynamic@[k]@
                    && r@[builtin@.len() + k].1 == AdminSource::Dynamic,
        decreases dynamic.len() - j,
    {
        r.push((dynamic[j].clone(), AdminSource::Dynamic));
        j = j + 1;
    }
    r
}

} // verus!
