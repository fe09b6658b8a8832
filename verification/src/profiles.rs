//! Connection profiles ("sites"): the registered endpoints, which one is
//! active, the site list markup, and the add / edit / delete / select rules.
//!
//! Storage, the DOM and the clock stay outside: the functions here take the
//! stored list, the stored active id and the form values, and give back the
//! list to store, the id to activate and the text to show.

use vstd::prelude::*;
use crate::text::{blank, decimal, digits_value, is_digit, trim_spec, push_text, push_char, push_decimal, owned, text_eq, trim, is_blank, starts_with_char, decimal_text, lemma_concat_step, lemma_concat_none};
use crate::dom::esc;
use crate::dom::escaped;

verus! {

/// A registered site: where the browser sends its requests.
pub struct SiteProfile {
    pub id: String,
    pub name: String,
    /// "aruaru-web" | "other"
    pub purpose: String,
    /// "http" | "https"
    pub protocol: String,
    /// IP address, domain or subdomain.
    pub host: String,
    pub port: u16,
    pub path: String,
    /// Free-form label of the backend stack, shown on the card.
    pub backend_stack: String,
}

/// The value of a [`SiteProfile`].
pub struct ProfileView {
    pub id: Seq<char>,
    pub name: Seq<char>,
    pub purpose: Seq<char>,
    pub protocol: Seq<char>,
    pub host: Seq<char>,
    pub port: u16,
    pub path: Seq<char>,
    pub backend_stack: Seq<char>,
}

impl View for SiteProfile {
    type V = ProfileView;

    open spec fn view(&self) -> ProfileView {
        ProfileView {
            id: self.id@,
            name: self.name@,
            purpose: self.purpose@,
            protocol: self.protocol@,
            host: self.host@,
            port: self.port,
            path: self.path@,
            backend_stack: self.backend_stack@,
        }
    }
}

/// The values of a list of profiles.
pub open spec fn profile_views(v: Seq<SiteProfile>) -> Seq<ProfileView> {
    Seq::new(v.len(), |i: int| v[i]@)
}

/// `protocol://host:port` followed by the path.
pub open spec fn endpoint_of(p: ProfileView) -> Seq<char> {
    p.protocol + "://"@ + p.host + ":"@ + decimal(p.port as nat) + p.path
}

impl SiteProfile {
    /// The endpoint URL of this site.
    pub fn endpoint(&self) -> (r: String)
        ensures
            r@ == endpoint_of(self@),
    {
        let mut s = self.protocol.clone();
        push_text(&mut s, "://");
        push_text(&mut s, self.host.as_str());
        push_text(&mut s, ":");
        push_decimal(&mut s, self.port as u64);
        push_text(&mut s, self.path.as_str());
        s
    }

    /// A field-by-field copy.
    pub fn duplicate(&self) -> (r: SiteProfile)
        ensures
            r@ == self@,
    {
        SiteProfile {
            id: self.id.clone(),
            name: self.name.clone(),
            purpose: self.purpose.clone(),
            protocol: self.protocol.clone(),
            host: self.host.clone(),
            port: self.port,
            path: self.path.clone(),
            backend_stack: self.backend_stack.clone(),
        }
    }
}

/// The two sites registered on first use.
pub open spec fn seed_profiles() -> Seq<ProfileView> {
    seq![
        ProfileView {
            id: "seed-aruaru-web"@,
            name: "aruaru-db (ローカル)"@,
            purpose: "aruaru-web"@,
            protocol: "http"@,
            host: "localhost"@,
            port: 4000,
            path: "/graphql"@,
            backend_stack: "Rust + async-graphql (aruaru-db)"@,
        },
        ProfileView {
            id: "seed-other-example"@,
            name: "他プロジェクト用(例)"@,
            purpose: "other"@,
            protocol: "http"@,
            host: "tool.example.local"@,
            port: 9000,
            path: "/graphql"@,
            backend_stack: "任意(PHP + Laravel / Python + FastAPI / Rust + Poem など)"@,
        },
    ]
}

/// The sites registered on first use.
pub fn default_profiles() -> (r: Vec<SiteProfile>)
    ensures
        profile_views(r@) == seed_profiles(),
{
    let mut v: Vec<SiteProfile> = Vec::new();
    v.push(
        SiteProfile {
            id: owned("seed-aruaru-web"),
            name: owned("aruaru-db (ローカル)"),
            purpose: owned("aruaru-web"),
            protocol: owned("http"),
            host: owned("localhost"),
            port: 4000,
            path: owned("/graphql"),
            backend_stack: owned("Rust + async-graphql (aruaru-db)"),
        },
    );
    v.push(
        SiteProfile {
            id: owned("seed-other-example"),
            name: owned("他プロジェクト用(例)"),
            purpose: owned("other"),
            protocol: owned("http"),
            host: owned("tool.example.local"),
            port: 9000,
            path: owned("/graphql"),
            backend_stack: owned("任意(PHP + Laravel / Python + FastAPI / Rust + Poem など)"),
        },
    );
    assert(profile_views(v@) =~= seed_profiles());
    v
}

/// The list in use given what storage held (`None` when nothing could be
/// read or parsed): a stored non-empty list, otherwise the seed list.
pub open spec fn loaded(stored: Option<Seq<ProfileView>>) -> Seq<ProfileView> {
    match stored {
        Some(v) => if v.len() > 0 {
            v
        } else {
            seed_profiles()
        },
        None => seed_profiles(),
    }
}

/// The view of an optional stored list.
pub open spec fn stored_view(stored: Option<Vec<SiteProfile>>) -> Option<Seq<ProfileView>> {
    match stored {
        Some(v) => Some(profile_views(v@)),
        None => None,
    }
}

/// The list to use given what storage held, and whether that list must be
/// written back (it must when the seed list is used).
pub fn load_profiles(stored: Option<Vec<SiteProfile>>) -> (r: (Vec<SiteProfile>, bool))
    ensures
        profile_views(r.0@) == loaded(stored_view(stored)),
        r.1 == !(stored_view(stored) matches Some(v) && v.len() > 0),
{
    match stored {
        Some(v) => {
            if v.len() > 0 {
                return (v, false);
            }
        },
        None => {},
    }
    (default_profiles(), true)
}

/// The index of the first profile whose id is `id`.
pub open spec fn index_of_id(ps: Seq<ProfileView>, id: Seq<char>) -> Option<int>
    decreases ps.len(),
{
    if ps.len() == 0 {
        None
    } else if ps[0].id == id {
        Some(0)
    } else {
        match index_of_id(ps.drop_first(), id) {
            Some(k) => Some(k + 1),
            None => None,
        }
    }
}

proof fn lemma_index_of_id_at(ps: Seq<ProfileView>, id: Seq<char>, i: int)
    requires
        0 <= i < ps.len(),
        ps[i].id == id,
        forall|k: int| 0 <= k < i ==> (#[trigger] ps[k]).id != id,
    ensures
        index_of_id(ps, id) == Some(i),
    decreases i,
{
    if i > 0 {
        let t = ps.drop_first();
        assert forall|k: int| 0 <= k < i - 1 implies (#[trigger] t[k]).id != id by {
            assert(t[k] == ps[k + 1]);
        }
        lemma_index_of_id_at(t, id, i - 1);
    }
}

proof fn lemma_index_of_id_none(ps: Seq<ProfileView>, id: Seq<char>)
    requires
        forall|k: int| 0 <= k < ps.len() ==> (#[trigger] ps[k]).id != id,
    ensures
        index_of_id(ps, id) is None,
    decreases ps.len(),
{
    if ps.len() > 0 {
        let t = ps.drop_first();
        assert forall|k: int| 0 <= k < t.len() implies (#[trigger] t[k]).id != id by {
            assert(t[k] == ps[k + 1]);
        }
        lemma_index_of_id_none(t, id);
    }
}

/// What `index_of_id` gives: a matching index with no earlier match.
pub proof fn lemma_index_of_id(ps: Seq<ProfileView>, id: Seq<char>)
    ensures
        match index_of_id(ps, id) {
            Some(i) => 0 <= i < ps.len() && ps[i].id == id && forall|k: int|
                0 <= k < i ==> (#[trigger] ps[k]).id != id,
            None => forall|k: int| 0 <= k < ps.len() ==> (#[trigger] ps[k]).id != id,
        },
    decreases ps.len(),
{
    if ps.len() > 0 && ps[0].id != id {
        let t = ps.drop_first();
        lemma_index_of_id(t, id);
        match index_of_id(t, id) {
            Some(j) => {
                assert forall|k: int| 0 <= k < j + 1 implies (#[trigger] ps[k]).id != id by {
                    if k > 0 {
                        assert(ps[k] == t[k - 1]);
                    }
                }
            },
            None => {
                assert forall|k: int| 0 <= k < ps.len() implies (#[trigger] ps[k]).id != id by {
                    if k > 0 {
                        assert(ps[k] == t[k - 1]);
                    }
                }
            },
        }
    }
}

/// The index of the first profile whose id is `id`.
pub fn find_profile(profiles: &Vec<SiteProfile>, id: &str) -> (r: Option<usize>)
    ensures
        match r {
            Some(i) => index_of_id(profile_views(profiles@), id@) == Some(i as int) && i
                < profiles@.len() && profiles@[i as int].id@ == id@,
            None => index_of_id(profile_views(profiles@), id@) is None,
        },
{
    let ghost ps = profile_views(profiles@);
    let mut i: usize = 0;
    while i < profiles.len()
        invariant
            i <= profiles@.len(),
            ps == profile_views(profiles@),
            forall|k: int| 0 <= k < i ==> (#[trigger] ps[k]).id != id@,
        decreases profiles@.len() - i,
    {
        if text_eq(profiles[i].id.as_str(), id) {
            proof {
                lemma_index_of_id_at(ps, id@, i as int);
            }
            return Some(i);
        }
        i = i + 1;
    }
    proof {
        lemma_index_of_id_none(ps, id@);
    }
    None
}

/// The profile in use: the one whose id is the active id, else the first.
pub open spec fn chosen(ps: Seq<ProfileView>, active: Option<Seq<char>>) -> Option<ProfileView> {
    let found = match active {
        Some(id) => index_of_id(ps, id),
        None => None,
    };
    match found {
        Some(i) => Some(ps[i]),
        None => if ps.len() > 0 {
            Some(ps[0])
        } else {
            None
        },
    }
}

/// The view of an optional stored text.
pub open spec fn opt_view(o: Option<String>) -> Option<Seq<char>> {
    match o {
        Some(s) => Some(s@),
        None => None,
    }
}

fn chosen_index(profiles: &Vec<SiteProfile>, active_id: &Option<String>) -> (r: Option<usize>)
    ensures
        match chosen(profile_views(profiles@), opt_view(*active_id)) {
            Some(p) => r is Some && r.unwrap() < profiles@.len() && profiles@[r.unwrap() as int]@ == p,
            None => r is None,
        },
{
    let found = match active_id {
        Some(id) => find_profile(profiles, id.as_str()),
        None => None,
    };
    match found {
        Some(i) => {
            proof {
                lemma_index_of_id(profile_views(profiles@), opt_view(*active_id).unwrap());
            }
            Some(i)
        },
        None => if profiles.len() > 0 {
            Some(0)
        } else {
            None
        },
    }
}

/// The endpoint URL of the active site; the first site when no site is
/// active or the active id is unknown; a local default when there is no site.
pub fn active_endpoint(profiles: &Vec<SiteProfile>, active_id: &Option<String>) -> (r: String)
    ensures
        r@ == match chosen(profile_views(profiles@), opt_view(*active_id)) {
            Some(p) => endpoint_of(p),
            None => "http://localhost:4000/graphql"@,
        },
{
    match chosen_index(profiles, active_id) {
        Some(i) => profiles[i].endpoint(),
        None => owned("http://localhost:4000/graphql"),
    }
}

/// The name of the active site, chosen as in [`active_endpoint`].
pub fn active_profile_name(profiles: &Vec<SiteProfile>, active_id: &Option<String>) -> (r: String)
    ensures
        r@ == match chosen(profile_views(profiles@), opt_view(*active_id)) {
            Some(p) => p.name,
            None => "(未設定)"@,
        },
{
    match chosen_index(profiles, active_id) {
        Some(i) => profiles[i].name.clone(),
        None => owned("(未設定)"),
    }
}

/// The id given to a site added at time `now_ms` (milliseconds).
pub open spec fn new_id_of(now_ms: nat) -> Seq<char> {
    "site-"@ + decimal(now_ms)
}

/// The id of a site added at time `now_ms` (milliseconds since the epoch).
pub fn new_id(now_ms: u64) -> (r: String)
    ensures
        r@ == new_id_of(now_ms as nat),
{
    let mut s = owned("site-");
    push_decimal(&mut s, now_ms);
    s
}

/// Whether the card of `p` is marked as the current connection: its id is
/// the active id, or no id is active and it has the id of the first site.
pub open spec fn card_is_active(p: ProfileView, ps: Seq<ProfileView>, active: Seq<char>) -> bool {
    p.id == active || (active.len() == 0 && ps.len() > 0 && ps[0].id == p.id)
}

/// The markup of one site card.
pub open spec fn card_html(p: ProfileView, is_active: bool) -> Seq<char> {
    let id = escaped(p.id);
    "<div class=\"site-card"@ + (if is_active {
        " active"@
    } else {
        ""@
    }) + "\">\n  <div class=\"site-card-main\">\n    <div class=\"site-card-title\">"@ + escaped(
        p.name,
    ) + " "@ + (if is_active {
        "<span class=\"badge\">現在の接続</span>"@
    } else {
        ""@
    }) + "</div>\n    <div class=\"site-card-meta muted\">"@ + (if p.purpose == "aruaru-web"@ {
        "aruaru-web用"@
    } else {
        "他の用途"@
    }) + " ・ "@ + escaped(endpoint_of(p)) + "</div>\n    <div class=\"site-card-stack muted\">スタック: "@
        + escaped(p.backend_stack)
        + "</div>\n  </div>\n  <div class=\"site-card-actions\">\n    <button class=\"site-select\" data-id=\""@
        + id + "\">選択</button>\n    <button class=\"site-test\" data-id=\""@ + id
        + "\">接続テスト</button>\n    <button class=\"site-edit\" data-id=\""@ + id
        + "\">編集</button>\n    <button class=\"site-delete\" data-id=\""@ + id
        + "\">削除</button>\n    <span class=\"test-result muted\" id=\"test-result-"@ + id
        + "\"></span>\n  </div>\n</div>"@
}

/// The cards of the first `k` sites.
pub open spec fn cards_html(ps: Seq<ProfileView>, active: Seq<char>, k: nat) -> Seq<char>
    decreases k,
{
    if k == 0 || k > ps.len() {
        Seq::empty()
    } else {
        cards_html(ps, active, (k - 1) as nat) + card_html(
            ps[k - 1],
            card_is_active(ps[k - 1], ps, active),
        )
    }
}

/// The markup of the site list, for the stored active id (`None` counts as
/// the empty id).
pub open spec fn site_list_html(ps: Seq<ProfileView>, active: Option<Seq<char>>) -> Seq<char> {
    let a = match active {
        Some(id) => id,
        None => Seq::empty(),
    };
    if ps.len() == 0 {
        "<p class=\"muted\">登録済みサイトはありません。下のフォームから追加してください。</p>"@
    } else {
        cards_html(ps, a, ps.len())
    }
}

fn card(p: &SiteProfile, is_active: bool) -> (r: String)
    ensures
        r@ == card_html(p@, is_active),
{
    let id = esc(p.id.as_str());
    let mut s = owned("<div class=\"site-card");
    push_text(&mut s, if is_active { " active" } else { "" });
    push_text(
        &mut s,
        "\">\n  <div class=\"site-card-main\">\n    <div class=\"site-card-title\">",
    );
    push_text(&mut s, esc(p.name.as_str()).as_str());
    push_text(&mut s, " ");
    push_text(&mut s, if is_active { "<span class=\"badge\">現在の接続</span>" } else { "" });
    push_text(&mut s, "</div>\n    <div class=\"site-card-meta muted\">");
    push_text(
        &mut s,
        if text_eq(p.purpose.as_str(), "aruaru-web") { "aruaru-web用" } else { "他の用途" },
    );
    push_text(&mut s, " ・ ");
    push_text(&mut s, esc(p.endpoint().as_str()).as_str());
    push_text(&mut s, "</div>\n    <div class=\"site-card-stack muted\">スタック: ");
    push_text(&mut s, esc(p.backend_stack.as_str()).as_str());
    push_text(
        &mut s,
        "</div>\n  </div>\n  <div class=\"site-card-actions\">\n    <button class=\"site-select\" data-id=\"",
    );
    push_text(&mut s, id.as_str());
    push_text(&mut s, "\">選択</button>\n    <button class=\"site-test\" data-id=\"");
    push_text(&mut s, id.as_str());
    push_text(&mut s, "\">接続テスト</button>\n    <button class=\"site-edit\" data-id=\"");
    push_text(&mut s, id.as_str());
    push_text(&mut s, "\">編集</button>\n    <button class=\"site-delete\" data-id=\"");
    push_text(&mut s, id.as_str());
    push_text(&mut s, "\">削除</button>\n    <span class=\"test-result muted\" id=\"test-result-");
    push_text(&mut s, id.as_str());
    push_text(&mut s, "\"></span>\n  </div>\n</div>");
    s
}

/// The markup of the "registered sites" list: one card per site, the active
/// one marked; a hint when there is no site.
pub fn render_site_manager(profiles: &Vec<SiteProfile>, active_id: &Option<String>) -> (r: String)
    ensures
        r@ == site_list_html(profile_views(profiles@), opt_view(*active_id)),
{
    let ghost ps = profile_views(profiles@);
    let active: String = match active_id {
        Some(id) => id.clone(),
        None => String::new(),
    };
    if profiles.len() == 0 {
        return owned(
            "<p class=\"muted\">登録済みサイトはありません。下のフォームから追加してください。</p>",
        );
    }
    let first_id = profiles[0].id.clone();
    let active_empty = active.as_str().unicode_len() == 0;
    let mut html = String::new();
    let mut i: usize = 0;
    while i < profiles.len()
        invariant
            i <= profiles@.len(),
            ps == profile_views(profiles@),
            ps.len() > 0,
            first_id@ == ps[0].id,
            active_empty == (active@.len() == 0),
            active@ == match opt_view(*active_id) {
                Some(id) => id,
                None => Seq::<char>::empty(),
            },
            html@ == cards_html(ps, active@, i as nat),
        decreases profiles@.len() - i,
    {
        let p = &profiles[i];
        let is_active = p.id == active || (active_empty && first_id == p.id);
        let c = card(p, is_active);
        push_text(&mut html, c.as_str());
        i = i + 1;
    }
    html
}

/// The status line after a site was selected: it names the site in use
/// for the active id as stored.
pub open spec fn select_status(ps: Seq<ProfileView>, active: Option<Seq<char>>) -> Seq<char> {
    let name = match chosen(ps, active) {
        Some(p) => p.name,
        None => "(未設定)"@,
    };
    "接続先を「"@ + name + "」に切り替えました。"@
}

/// The status line once a site has been selected, given the active id read
/// back from storage.
pub fn on_select_site(profiles: &Vec<SiteProfile>, stored_active: &Option<String>) -> (r: String)
    ensures
        r@ == select_status(profile_views(profiles@), opt_view(*stored_active)),
{
    let name = active_profile_name(profiles, stored_active);
    let mut s = owned("接続先を「");
    push_text(&mut s, name.as_str());
    push_text(&mut s, "」に切り替えました。");
    s
}

/// The profiles whose id is not `id`, in their order.
pub open spec fn without_id(ps: Seq<ProfileView>, id: Seq<char>) -> Seq<ProfileView>
    decreases ps.len(),
{
    if ps.len() == 0 {
        Seq::empty()
    } else if ps.last().id == id {
        without_id(ps.drop_last(), id)
    } else {
        without_id(ps.drop_last(), id).push(ps.last())
    }
}

/// What deleting a site changes.
pub struct DeleteOutcome {
    /// The list to store.
    pub profiles: Vec<SiteProfile>,
    /// The id to store as active, when the active site was deleted and
    /// another site is left.
    pub activate: Option<String>,
}

/// The new active id after deleting `id`: the first remaining site when the
/// deleted site was the active one.
pub open spec fn activate_after_delete(
    rest: Seq<ProfileView>,
    active: Option<Seq<char>>,
    id: Seq<char>,
) -> Option<Seq<char>> {
    if active == Some(id) && rest.len() > 0 {
        Some(rest[0].id)
    } else {
        None
    }
}

/// Deletes every site whose id is `id`.
pub fn delete_site(profiles: Vec<SiteProfile>, active_id: &Option<String>, id: &str) -> (r:
    DeleteOutcome)
    ensures
        profile_views(r.profiles@) == without_id(profile_views(profiles@), id@),
        opt_view(r.activate) == activate_after_delete(
            without_id(profile_views(profiles@), id@),
            opt_view(*active_id),
            id@,
        ),
{
    let ghost ps = profile_views(profiles@);
    let mut rest: Vec<SiteProfile> = Vec::new();
    let mut i: usize = 0;
    while i < profiles.len()
        invariant
            i <= profiles@.len(),
            ps == profile_views(profiles@),
            profile_views(rest@) == without_id(ps.take(i as int), id@),
        decreases profiles@.len() - i,
    {
        proof {
            assert(ps.take(i + 1).drop_last() =~= ps.take(i as int));
            assert(ps.take(i + 1).last() == ps[i as int]);
        }
        if !text_eq(profiles[i].id.as_str(), id) {
            let ghost before = rest@;
            rest.push(profiles[i].duplicate());
            proof {
                assert(profile_views(rest@) =~= profile_views(before).push(ps[i as int]));
            }
        }
        i = i + 1;
    }
    proof {
        assert(ps.take(profiles@.len() as int) =~= ps);
    }
    let was_active = match active_id {
        Some(a) => text_eq(a.as_str(), id),
        None => false,
    };
    let activate = if was_active && rest.len() > 0 {
        Some(rest[0].id.clone())
    } else {
        None
    };
    DeleteOutcome { profiles: rest, activate }
}

/// The question asked before deleting the site `id`: it names the site, or
/// the id when no site has it.
pub open spec fn delete_prompt_text(ps: Seq<ProfileView>, id: Seq<char>) -> Seq<char> {
    let name = match index_of_id(ps, id) {
        Some(i) => ps[i].name,
        None => id,
    };
    "サイト「"@ + name + "」を削除しますか?"@
}

/// The question asked before deleting the site `id`.
pub fn delete_prompt(profiles: &Vec<SiteProfile>, id: &str) -> (r: String)
    ensures
        r@ == delete_prompt_text(profile_views(profiles@), id@),
{
    let mut s = owned("サイト「");
    match find_profile(profiles, id) {
        Some(i) => push_text(&mut s, profiles[i].name.as_str()),
        None => push_text(&mut s, id),
    }
    push_text(&mut s, "」を削除しますか?");
    s
}

/// A deletion request answered by the user: deletes as [`delete_site`]
/// when confirmed; when cancelled, the list and the active id stay as they are.
pub fn on_delete_site(
    profiles: Vec<SiteProfile>,
    active_id: &Option<String>,
    id: &str,
    confirmed: bool,
) -> (r: DeleteOutcome)
    ensures
        confirmed ==> profile_views(r.profiles@) == without_id(profile_views(profiles@), id@)
            && opt_view(r.activate) == activate_after_delete(
            without_id(profile_views(profiles@), id@),
            opt_view(*active_id),
            id@,
        ),
        !confirmed ==> profile_views(r.profiles@) == profile_views(profiles@) && r.activate is None,
{
    if confirmed {
        delete_site(profiles, active_id, id)
    } else {
        DeleteOutcome { profiles, activate: None }
    }
}

/// Values to write into the site form. `None` leaves a select as it is.
pub struct FormFields {
    pub id: String,
    pub name: String,
    pub host: String,
    pub port: String,
    pub path: String,
    pub stack: String,
    pub purpose: Option<String>,
    pub protocol: Option<String>,
}

/// The value of a [`FormFields`].
pub struct FormFieldsView {
    pub id: Seq<char>,
    pub name: Seq<char>,
    pub host: Seq<char>,
    pub port: Seq<char>,
    pub path: Seq<char>,
    pub stack: Seq<char>,
    pub purpose: Option<Seq<char>>,
    pub protocol: Option<Seq<char>>,
}

impl View for FormFields {
    type V = FormFieldsView;

    open spec fn view(&self) -> FormFieldsView {
        FormFieldsView {
            id: self.id@,
            name: self.name@,
            host: self.host@,
            port: self.port@,
            path: self.path@,
            stack: self.stack@,
            purpose: opt_view(self.purpose),
            protocol: opt_view(self.protocol),
        }
    }
}

/// The form filled from a profile for editing.
pub open spec fn edit_form(p: ProfileView) -> FormFieldsView {
    FormFieldsView {
        id: p.id,
        name: p.name,
        host: p.host,
        port: decimal(p.port as nat),
        path: p.path,
        stack: p.backend_stack,
        purpose: Some(p.purpose),
        protocol: Some(p.protocol),
    }
}

/// The form filled from the first site whose id is `id`, if any.
pub fn on_edit_site(profiles: &Vec<SiteProfile>, id: &str) -> (r: Option<FormFields>)
    ensures
        match index_of_id(profile_views(profiles@), id@) {
            Some(i) => r is Some && r.unwrap()@ == edit_form(profile_views(profiles@)[i]),
            None => r is None,
        },
{
    match find_profile(profiles, id) {
        Some(i) => {
            let p = &profiles[i];
            Some(
                FormFields {
                    id: p.id.clone(),
                    name: p.name.clone(),
                    host: p.host.clone(),
                    port: decimal_text(p.port as u64),
                    path: p.path.clone(),
                    stack: p.backend_stack.clone(),
                    purpose: Some(p.purpose.clone()),
                    protocol: Some(p.protocol.clone()),
                },
            )
        },
        None => None,
    }
}

/// The emptied form: no id, port 8080, path `/graphql`, the selects unchanged.
pub open spec fn cleared_form() -> FormFieldsView {
    FormFieldsView {
        id: ""@,
        name: ""@,
        host: ""@,
        port: "8080"@,
        path: "/graphql"@,
        stack: ""@,
        purpose: None,
        protocol: None,
    }
}

/// The values that clear the site form.
pub fn clear_form() -> (r: FormFields)
    ensures
        r@ == cleared_form(),
{
    FormFields {
        id: owned(""),
        name: owned(""),
        host: owned(""),
        port: owned("8080"),
        path: owned("/graphql"),
        stack: owned(""),
        purpose: None,
        protocol: None,
    }
}

/// The values of the site form when "save" is pressed.
pub struct SiteForm {
    /// The id of the site being edited; empty for a new site.
    pub id: String,
    pub name: String,
    pub purpose: String,
    pub protocol: String,
    pub host: String,
    pub port: String,
    pub path: String,
    pub stack: String,
}

/// The value of a [`SiteForm`].
pub struct SiteFormView {
    pub id: Seq<char>,
    pub name: Seq<char>,
    pub purpose: Seq<char>,
    pub protocol: Seq<char>,
    pub host: Seq<char>,
    pub port: Seq<char>,
    pub path: Seq<char>,
    pub stack: Seq<char>,
}

impl View for SiteForm {
    type V = SiteFormView;

    open spec fn view(&self) -> SiteFormView {
        SiteFormView {
            id: self.id@,
            name: self.name@,
            purpose: self.purpose@,
            protocol: self.protocol@,
            host: self.host@,
            port: self.port@,
            path: self.path@,
            stack: self.stack@,
        }
    }
}

/// The digits of a trimmed port text: without its leading `+`, if any.
pub open spec fn port_digits(t: Seq<char>) -> Seq<char> {
    if t.len() > 0 && t[0] == '+' {
        t.drop_first()
    } else {
        t
    }
}

/// Every character of `d` is an ASCII digit.
pub open spec fn all_digits(d: Seq<char>) -> bool {
    forall|i: int| 0 <= i < d.len() ==> is_digit(#[trigger] d[i])
}

/// The port typed in the form: the trimmed text read as a `u32` (an optional
/// `+` followed by at least one ASCII digit), accepted when in 1..=65535.
pub open spec fn port_of(raw: Seq<char>) -> Option<u16> {
    let d = port_digits(trim_spec(raw));
    if d.len() > 0 && all_digits(d) && 1 <= digits_value(d) <= 65535 {
        Some(digits_value(d) as u16)
    } else {
        None
    }
}

proof fn lemma_digits_value_grows(s: Seq<char>, i: int)
    requires
        0 <= i <= s.len(),
        forall|k: int| 0 <= k < s.len() ==> is_digit(#[trigger] s[k]),
    ensures
        digits_value(s.take(i)) <= digits_value(s),
    decreases s.len() - i,
{
    if i < s.len() {
        let t = s.take(i + 1);
        assert(t.drop_last() =~= s.take(i));
        assert(is_digit(t.last()));
        lemma_digits_value_grows(s, i + 1);
    } else {
        assert(s.take(i) =~= s);
    }
}

/// The port typed in the form, when it is a number in 1..=65535.
pub fn parse_port(raw: &str) -> (r: Option<u16>)
    ensures
        r == port_of(raw@),
{
    let t = trim(raw);
    let n = t.as_str().unicode_len();
    let mut start: usize = 0;
    if n > 0 && t.as_str().get_char(0) == '+' {
        start = 1;
    }
    let ghost d = port_digits(t@);
    proof {
        if start == 1 {
            assert(t@.drop_first() =~= t@.subrange(1, n as int));
        } else {
            assert(t@ =~= t@.subrange(0, n as int));
        }
        assert(d.take(0) =~= Seq::<char>::empty());
    }
    if start >= n {
        return None;
    }
    let mut value: u64 = 0;
    let mut i: usize = start;
    while i < n
        invariant
            start <= i <= n,
            n == t@.len(),
            t@ == trim_spec(raw@),
            d == port_digits(t@),
            d == t@.subrange(start as int, n as int),
            value == digits_value(d.take(i - start)),
            value <= 65535,
            forall|k: int| 0 <= k < i - start ==> is_digit(#[trigger] d[k]),
        decreases n - i,
    {
        let c = t.as_str().get_char(i);
        assert(c == d[i - start]);
        if !('0' <= c && c <= '9') {
            assert(!is_digit(d[i - start]));
            return None;
        }
        let dv = (c as u32 - 48) as u64;
        proof {
            let p = d.take(i - start + 1);
            assert(p.drop_last() =~= d.take(i - start));
            assert(p.last() == c);
            assert(digits_value(p) == digits_value(p.drop_last()) * 10 + ((p.last() as int - 48) as nat));
            assert(dv == c as int - 48);
        }
        value = value * 10 + dv;
        assert(value == digits_value(d.take(i - start + 1)));
        if value > 65535 {
            proof {
                if all_digits(d) {
                    lemma_digits_value_grows(d, i - start + 1);
                }
            }
            return None;
        }
        i = i + 1;
    }
    proof {
        assert(d.take(n - start) =~= d);
    }
    if value >= 1 {
        Some(value as u16)
    } else {
        None
    }
}

/// The path typed in the form: `/graphql` when blank, kept when it starts
/// with `/`, otherwise prefixed with `/`.
pub open spec fn path_of(raw: Seq<char>) -> Seq<char> {
    if blank(raw) {
        "/graphql"@
    } else if raw.len() > 0 && raw[0] == '/' {
        raw
    } else {
        seq!['/'] + raw
    }
}

/// The path to store for what was typed in the form.
pub fn normalize_path(raw: &str) -> (r: String)
    ensures
        r@ == path_of(raw@),
{
    if is_blank(raw) {
        owned("/graphql")
    } else if starts_with_char(raw, '/') {
        owned(raw)
    } else {
        let mut s = String::new();
        push_char(&mut s, '/');
        push_text(&mut s, raw);
        s
    }
}

/// Why a form could not be saved.
pub enum SaveError {
    /// The name or the host is blank.
    MissingNameOrHost,
    /// The port is not a number in 1..=65535; holds what was typed.
    InvalidPort(String),
}

impl SaveError {
    /// The status line for this error.
    pub fn message(&self) -> (r: String)
        ensures
            r@ == match self {
                SaveError::MissingNameOrHost => "サイト名と接続先ホスト(IP/ドメイン)は必須です。"@,
                SaveError::InvalidPort(raw) => "ポート番号が不正です(1〜65535の数値を入力してください): \""@
                    + raw@ + "\""@,
            },
    {
        match self {
            SaveError::MissingNameOrHost => owned("サイト名と接続先ホスト(IP/ドメイン)は必須です。"),
            SaveError::InvalidPort(raw) => {
                let mut s = owned("ポート番号が不正です(1〜65535の数値を入力してください): \"");
                push_text(&mut s, raw.as_str());
                push_text(&mut s, "\"");
                s
            },
        }
    }
}

/// What saving the form changes.
pub struct SaveOutcome {
    /// The list to store.
    pub profiles: Vec<SiteProfile>,
    /// The id to store as active: the new site's, when none was active.
    pub activate: Option<String>,
    /// The status line.
    pub status: String,
}

/// The site `p` with the form's values, its id kept.
pub open spec fn edited(p: ProfileView, f: SiteFormView, port: u16) -> ProfileView {
    ProfileView {
        id: p.id,
        name: f.name,
        purpose: f.purpose,
        protocol: f.protocol,
        host: f.host,
        port: port,
        path: path_of(f.path),
        backend_stack: f.stack,
    }
}

/// The site added from the form at time `now_ms`.
pub open spec fn added(f: SiteFormView, port: u16, now_ms: nat) -> ProfileView {
    ProfileView {
        id: new_id_of(now_ms),
        name: f.name,
        purpose: f.purpose,
        protocol: f.protocol,
        host: f.host,
        port: port,
        path: path_of(f.path),
        backend_stack: f.stack,
    }
}

/// The result of saving the form: an error, or the list to store and the id
/// to make active.
pub enum SaveResult {
    MissingNameOrHost,
    InvalidPort(Seq<char>),
    Saved(Seq<ProfileView>, Option<Seq<char>>),
}

/// Saving the form `f`: the name and the host must not be blank and the port
/// must be valid; a form with an id edits the first site with that id (and
/// changes nothing when there is none); a form without id adds a site, which
/// becomes active when no site is.
pub open spec fn save_result(
    ps: Seq<ProfileView>,
    active: Option<Seq<char>>,
    f: SiteFormView,
    now_ms: nat,
) -> SaveResult {
    if blank(f.name) || blank(f.host) {
        SaveResult::MissingNameOrHost
    } else {
        match port_of(f.port) {
            None => SaveResult::InvalidPort(f.port),
            Some(port) => if f.id.len() > 0 {
                match index_of_id(ps, f.id) {
                    Some(i) => SaveResult::Saved(ps.update(i, edited(ps[i], f, port)), None),
                    None => SaveResult::Saved(ps, None),
                }
            } else {
                let np = added(f, port, now_ms);
                SaveResult::Saved(
                    ps.push(np),
                    if active is None {
                        Some(np.id)
                    } else {
                        None
                    },
                )
            },
        }
    }
}

/// The value of the result of [`on_save_site`].
pub open spec fn save_result_of(r: Result<SaveOutcome, SaveError>) -> SaveResult {
    match r {
        Ok(o) => SaveResult::Saved(profile_views(o.profiles@), opt_view(o.activate)),
        Err(SaveError::MissingNameOrHost) => SaveResult::MissingNameOrHost,
        Err(SaveError::InvalidPort(raw)) => SaveResult::InvalidPort(raw@),
    }
}

/// Saves the site form, adding a new site (id from `now_ms`) or editing the
/// site whose id the form holds.
pub fn on_save_site(
    profiles: Vec<SiteProfile>,
    active_id: &Option<String>,
    form: SiteForm,
    now_ms: u64,
) -> (r: Result<SaveOutcome, SaveError>)
    ensures
        save_result_of(r) == save_result(
            profile_views(profiles@),
            opt_view(*active_id),
            form@,
            now_ms as nat,
        ),
        r matches Ok(o) ==> o.status@ == "サイト情報を保存しました。"@,
{
    let ghost ps = profile_views(profiles@);
    let ghost f = form@;
    if is_blank(form.name.as_str()) || is_blank(form.host.as_str()) {
        return Err(SaveError::MissingNameOrHost);
    }
    let port = match parse_port(form.port.as_str()) {
        Some(p) => p,
        None => {
            return Err(SaveError::InvalidPort(form.port));
        },
    };
    let path = normalize_path(form.path.as_str());
    let mut profiles = profiles;
    if form.id.as_str().unicode_len() > 0 {
        match find_profile(&profiles, form.id.as_str()) {
            Some(i) => {
                let id = profiles[i].id.clone();
                let updated = SiteProfile {
                    id,
                    name: form.name,
                    purpose: form.purpose,
                    protocol: form.protocol,
                    host: form.host,
                    port,
                    path,
                    backend_stack: form.stack,
                };
                profiles.set(i, updated);
                proof {
                    assert(profile_views(profiles@) =~= ps.update(i as int, edited(ps[i as int], f, port)));
                }
            },
            None => {},
        }
        Ok(SaveOutcome { profiles, activate: None, status: owned("サイト情報を保存しました。") })
    } else {
        let new_profile = SiteProfile {
            id: new_id(now_ms),
            name: form.name,
            purpose: form.purpose,
            protocol: form.protocol,
            host: form.host,
            port,
            path,
            backend_stack: form.stack,
        };
        let activate = match active_id {
            Some(_) => None,
            None => Some(new_profile.id.clone()),
        };
        profiles.push(new_profile);
        proof {
            assert(profile_views(profiles@) =~= ps.push(added(f, port, now_ms as nat)));
        }
        Ok(SaveOutcome { profiles, activate, status: owned("サイト情報を保存しました。") })
    }
}

/// Where to test a site: the element that shows the result, the text shown
/// while the test runs, and the URL.
pub struct SiteTest {
    pub result_id: String,
    pub pending: String,
    pub endpoint: String,
}

/// The connection test of the first site whose id is `id`, if any: the
/// result goes to `test-result-<id>`, the request to the site's endpoint.
pub fn on_test_site(profiles: &Vec<SiteProfile>, id: &str) -> (r: Option<SiteTest>)
    ensures
        match index_of_id(profile_views(profiles@), id@) {
            Some(i) => r is Some && r.unwrap().result_id@ == "test-result-"@ + profile_views(
                profiles@,
            )[i].id && r.unwrap().endpoint@ == endpoint_of(profile_views(profiles@)[i])
                && r.unwrap().pending@ == "確認中…"@,
            None => r is None,
        },
{
    match find_profile(profiles, id) {
        Some(i) => {
            let mut result_id = owned("test-result-");
            push_text(&mut result_id, profiles[i].id.as_str());
            Some(SiteTest { result_id, pending: owned("確認中…"), endpoint: profiles[i].endpoint() })
        },
        None => None,
    }
}

/// The text shown after a connection test. The test is a plain reachability
/// check: any HTTP reply (whatever its status) counts as reachable; only a
/// request that got no reply fails, with its error.
pub fn test_result_message(outcome: &Result<u16, String>) -> (r: String)
    ensures
        r@ == match outcome {
            Ok(_) => "✅ 接続成功"@,
            Err(e) => "❌ 接続失敗: "@ + e@,
        },
{
    match outcome {
        Ok(_) => owned("✅ 接続成功"),
        Err(e) => {
            let mut s = owned("❌ 接続失敗: ");
            push_text(&mut s, e.as_str());
            s
        },
    }
}

/// What importing a site list changes: the list to store, if any, and the
/// status line.
pub struct ImportOutcome {
    pub profiles: Option<Vec<SiteProfile>>,
    pub status: String,
}

/// Importing a file's site list, given the parsed list or the parser's error
/// text: a non-empty list replaces the stored one; an empty list or an
/// unreadable file changes nothing.
pub fn on_import_sites(parsed: Result<Vec<SiteProfile>, String>) -> (r: ImportOutcome)
    ensures
        match parsed {
            Ok(v) => if v@.len() > 0 {
                r.profiles is Some && profile_views(r.profiles.unwrap()@) == profile_views(v@)
                    && r.status@ == decimal(v@.len()) + " 件のサイトをインポートしました。"@
            } else {
                r.profiles is None && r.status@ == "インポートするサイトがありません。"@
            },
            Err(e) => r.profiles is None && r.status@ == "JSONを解釈できませんでした: "@ + e@,
        },
{
    match parsed {
        Ok(v) => {
            if v.len() > 0 {
                let status = {
                    let mut s = decimal_text(v.len() as u64);
                    push_text(&mut s, " 件のサイトをインポートしました。");
                    s
                };
                ImportOutcome { profiles: Some(v), status }
            } else {
                ImportOutcome { profiles: None, status: owned("インポートするサイトがありません。") }
            }
        },
        Err(e) => {
            let mut s = owned("JSONを解釈できませんでした: ");
            push_text(&mut s, e.as_str());
            ImportOutcome { profiles: None, status: s }
        },
    }
}

/// The list in use is never empty.
pub proof fn lemma_loaded_nonempty(stored: Option<Seq<ProfileView>>)
    ensures
        loaded(stored).len() > 0,
{
}

/// On a non-empty list some site is always in use; it is a registered site,
/// the one with the active id when there is one, the first site otherwise.
pub proof fn lemma_chosen_site(ps: Seq<ProfileView>, active: Option<Seq<char>>)
    ensures
        ps.len() > 0 ==> chosen(ps, active) is Some,
        match chosen(ps, active) {
            Some(p) => {
                &&& ps.contains(p)
                &&& match active {
                    Some(a) => if exists|k: int| 0 <= k < ps.len() && (#[trigger] ps[k]).id == a {
                        p.id == a
                    } else {
                        p == ps[0]
                    },
                    None => p == ps[0],
                }
            },
            None => ps.len() == 0,
        },
{
    if let Some(a) = active {
        lemma_index_of_id(ps, a);
        if let Some(i) = index_of_id(ps, a) {
            assert(ps.contains(ps[i]));
        }
    }
    if ps.len() > 0 {
        assert(ps.contains(ps[0]));
    }
}

/// Deleting a site removes every site with its id and keeps every other site.
pub proof fn lemma_delete_removes_only(ps: Seq<ProfileView>, id: Seq<char>)
    ensures
        forall|i: int| 0 <= i < without_id(ps, id).len() ==> (#[trigger] without_id(ps, id)[i]).id != id,
        forall|j: int| 0 <= j < ps.len() && (#[trigger] ps[j]).id != id ==> without_id(ps, id).contains(ps[j]),
        without_id(ps, id).len() <= ps.len(),
    decreases ps.len(),
{
    if ps.len() > 0 {
        let p = ps.drop_last();
        lemma_delete_removes_only(p, id);
        let w = without_id(ps, id);
        let q = without_id(p, id);
        assert forall|i: int| 0 <= i < w.len() implies (#[trigger] w[i]).id != id by {
            if i < q.len() {
                assert(w[i] == q[i]);
            }
        }
        assert forall|j: int| 0 <= j < ps.len() && (#[trigger] ps[j]).id != id implies w.contains(ps[j]) by {
            if j < ps.len() - 1 {
                assert(p[j] == ps[j]);
                let k = choose|k: int| 0 <= k < q.len() && q[k] == p[j];
                assert(w[k] == q[k]);
            } else {
                assert(w[w.len() - 1] == ps[j]);
            }
        }
    }
}

/// A site that the form can save back as it is.
pub open spec fn saveable(p: ProfileView) -> bool {
    &&& !blank(p.name)
    &&& !blank(p.host)
    &&& p.port >= 1
    &&& p.path.len() > 0
    &&& p.path[0] == '/'
}

/// The port text written by the edit form reads back as the same port.
pub proof fn lemma_port_round_trip(port: u16)
    requires
        port >= 1,
    ensures
        port_of(decimal(port as nat)) == Some(port),
{
    let d = decimal(port as nat);
    crate::text::lemma_decimal_digits(port as nat);
    crate::text::lemma_decimal_value(port as nat);
    assert(!crate::text::is_white(d[0]));
    assert(!crate::text::is_white(d.last()));
    assert(crate::text::trim_start_spec(d) == d);
    assert(crate::text::trim_end_spec(d) == d);
    assert(port_digits(d) == d);
    assert(all_digits(d));
}

/// Editing a site and saving the form unchanged leaves the list as it was
/// (for a site with a non-empty id that the form can hold).
pub proof fn lemma_edit_then_save_unchanged(
    ps: Seq<ProfileView>,
    active: Option<Seq<char>>,
    id: Seq<char>,
    now_ms: nat,
)
    requires
        id.len() > 0,
        match index_of_id(ps, id) {
            Some(i) => saveable(ps[i]),
            None => false,
        },
    ensures
        ({
            let p = ps[index_of_id(ps, id).unwrap()];
            let e = edit_form(p);
            let f = SiteFormView {
                id: e.id,
                name: e.name,
                purpose: e.purpose.unwrap(),
                protocol: e.protocol.unwrap(),
                host: e.host,
                port: e.port,
                path: e.path,
                stack: e.stack,
            };
            save_result(ps, active, f, now_ms) == SaveResult::Saved(ps, None)
        }),
{
    lemma_index_of_id(ps, id);
    let i = index_of_id(ps, id).unwrap();
    let p = ps[i];
    lemma_port_round_trip(p.port);
    assert(!crate::text::is_white(p.path[0]));
    assert(edited(p, SiteFormView {
        id: p.id,
        name: p.name,
        purpose: p.purpose,
        protocol: p.protocol,
        host: p.host,
        port: decimal(p.port as nat),
        path: p.path,
        stack: p.backend_stack,
    }, p.port) == p);
    assert(ps.update(i, p) =~= ps);
}

/// Every site that saving writes has a port in 1..=65535 and a path that
/// starts with `/`; the other sites stay as they were, and at most one site
/// is added.
pub proof fn lemma_saved_sites_valid(
    ps: Seq<ProfileView>,
    active: Option<Seq<char>>,
    f: SiteFormView,
    now_ms: nat,
)
    ensures
        match save_result(ps, active, f, now_ms) {
            SaveResult::Saved(qs, _) => {
                &&& ps.len() <= qs.len() <= ps.len() + 1
                &&& forall|i: int|
                    0 <= i < qs.len() ==> (i < ps.len() && #[trigger] qs[i] == ps[i]) || (
                    qs[i].port >= 1 && qs[i].path.len() > 0 && qs[i].path[0] == '/')
            },
            _ => true,
        },
{
    reveal_strlit("/graphql");
    if let Some(port) = port_of(f.port) {
        let path = path_of(f.path);
        assert(path.len() > 0 && path[0] == '/');
        if f.id.len() > 0 {
            lemma_index_of_id(ps, f.id);
        }
    }
}

/// Saving a valid form whose id names a stored site edits that site only: for
/// the first site `i` with that id, the saved list has the same length, site
/// `i` keeps its id and takes every other field from the form (the port as
/// read, the path normalised), every other site is unchanged, and no site is
/// activated.
pub proof fn lemma_save_edits_site(
    ps: Seq<ProfileView>,
    active: Option<Seq<char>>,
    f: SiteFormView,
    now_ms: nat,
    i: int,
    port: u16,
)
    requires
        !blank(f.name),
        !blank(f.host),
        port_of(f.port) == Some(port),
        f.id.len() > 0,
        0 <= i < ps.len(),
        ps[i].id == f.id,
        forall|k: int| 0 <= k < i ==> (#[trigger] ps[k]).id != f.id,
    ensures
        match save_result(ps, active, f, now_ms) {
            SaveResult::Saved(qs, act) => {
                &&& qs.len() == ps.len()
                &&& qs[i].id == ps[i].id
                &&& qs[i].name == f.name
                &&& qs[i].purpose == f.purpose
                &&& qs[i].protocol == f.protocol
                &&& qs[i].host == f.host
                &&& qs[i].port == port
                &&& qs[i].path == path_of(f.path)
                &&& qs[i].backend_stack == f.stack
                &&& forall|j: int| 0 <= j < ps.len() && j != i ==> #[trigger] qs[j] == ps[j]
                &&& act is None
            },
            _ => false,
        },
{
    lemma_index_of_id_at(ps, f.id, i);
}

/// Saving a valid form without id appends one site, made of the form's
/// fields with the id `site-<now_ms>`; the stored sites are unchanged, and the
/// new site becomes active exactly when no site was.
pub proof fn lemma_save_adds_site(
    ps: Seq<ProfileView>,
    active: Option<Seq<char>>,
    f: SiteFormView,
    now_ms: nat,
    port: u16,
)
    requires
        !blank(f.name),
        !blank(f.host),
        port_of(f.port) == Some(port),
        f.id.len() == 0,
    ensures
        match save_result(ps, active, f, now_ms) {
            SaveResult::Saved(qs, act) => {
                let n = ps.len() as int;
                &&& qs.len() == ps.len() + 1
                &&& forall|j: int| 0 <= j < n ==> #[trigger] qs[j] == ps[j]
                &&& qs[n].id == "site-"@ + decimal(now_ms)
                &&& qs[n].name == f.name
                &&& qs[n].purpose == f.purpose
                &&& qs[n].protocol == f.protocol
                &&& qs[n].host == f.host
                &&& qs[n].port == port
                &&& qs[n].path == path_of(f.path)
                &&& qs[n].backend_stack == f.stack
                &&& act == if active is None {
                    Some(qs[n].id)
                } else {
                    None
                }
            },
            _ => false,
        },
{
}

/// A form with a blank name or host is refused as such; otherwise a form
/// whose port is not a number in 1..=65535 is refused with what was typed.
pub proof fn lemma_save_refusals(
    ps: Seq<ProfileView>,
    active: Option<Seq<char>>,
    f: SiteFormView,
    now_ms: nat,
)
    ensures
        (blank(f.name) || blank(f.host)) ==> save_result(ps, active, f, now_ms)
            == SaveResult::MissingNameOrHost,
        (!blank(f.name) && !blank(f.host) && port_of(f.port) is None) ==> save_result(
            ps,
            active,
            f,
            now_ms,
        ) == SaveResult::InvalidPort(f.port),
{
}

/// Deleting keeps every site whose id differs, in order and with repeats:
/// the list filtered by `id != deleted id`.
pub proof fn lemma_delete_is_filter(ps: Seq<ProfileView>, id: Seq<char>)
    ensures
        without_id(ps, id) == ps.filter(|p: ProfileView| p.id != id),
    decreases ps.len(),
{
    if ps.len() == 0 {
        reveal(Seq::filter);
    } else {
        lemma_delete_is_filter(ps.drop_last(), id);
        assert(ps.drop_last().push(ps.last()) =~= ps);
        ps.drop_last().lemma_filter_push(ps.last(), |p: ProfileView| p.id != id);
    }
}

proof fn lemma_cards_in_order(ps: Seq<ProfileView>, active: Seq<char>, k: nat)
    requires
        k <= ps.len(),
    ensures
        cards_html(ps, active, k) == Seq::new(
            k,
            |i: int| card_html(ps[i], card_is_active(ps[i], ps, active)),
        ).flatten(),
    decreases k,
{
    let f = |i: int| card_html(ps[i], card_is_active(ps[i], ps, active));
    if k == 0 {
        lemma_concat_none(f);
    } else {
        lemma_cards_in_order(ps, active, (k - 1) as nat);
        lemma_concat_step((k - 1) as nat, f);
    }
}

/// The site list shows one card per site in stored order, each marked as the
/// current connection as `card_is_active` says.
pub proof fn lemma_site_list_order(ps: Seq<ProfileView>, active: Option<Seq<char>>)
    ensures
        ({
            let a = match active {
                Some(a) => a,
                None => Seq::<char>::empty(),
            };
            ps.len() > 0 ==> site_list_html(ps, active) == Seq::new(
                ps.len(),
                |i: int| card_html(ps[i], card_is_active(ps[i], ps, a)),
            ).flatten()
        }),
{
    let a = match active {
        Some(a) => a,
        None => Seq::<char>::empty(),
    };
    lemma_cards_in_order(ps, a, ps.len());
}

} // verus!
