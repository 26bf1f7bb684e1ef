use vstd::prelude::*;
use vstd::string::StrSliceExecFns;
use vstd::string::StringExecFns;

verus! {

broadcast use vstd::seq_lib::group_filter_ensures;

/// Mathematical model of a note header: the name, and the optional tag and
/// link collections, as sequences of characters.
pub struct MatterView {
    pub name: Seq<char>,
    pub tags: Option<Seq<Seq<char>>>,
    pub links: Option<Seq<Seq<char>>>,
}

/// The structured header ("matter") prefixed to a note body: a name, an
/// optional collection of tags and an optional ordered sequence of link
/// names.  The mutation operations on [`Note`] keep `tags` and `links` free
/// of duplicates; storage does not enforce that.
#[derive(Debug)]
pub struct Matter {
    pub name: String,
    pub tags: Option<Vec<String>>,
    pub links: Option<Vec<String>>,
}

/// The abstract contents of an optional collection of names: the empty
/// sequence when the collection is absent.
pub open spec fn opt_items_view(l: Option<Vec<String>>) -> Seq<Seq<char>> {
    match l {
        Some(v) => v.deep_view(),
        None => Seq::empty(),
    }
}

impl DeepView for Matter {
    type V = MatterView;

    open spec fn deep_view(&self) -> MatterView {
        MatterView {
            name: self.name@,
            tags: match self.tags {
                Some(v) => Some(v.deep_view()),
                None => None,
            },
            links: match self.links {
                Some(v) => Some(v.deep_view()),
                None => None,
            },
        }
    }
}

/// Clones a collection of strings, keeping its abstract value.
fn clone_string_vec(v: &Vec<String>) -> (r: Vec<String>)
    ensures
        r.deep_view() == v.deep_view(),
{
    let r = v.clone();
    proof {
        assert forall|i: int| 0 <= i < v@.len() implies r.deep_view()[i] == v.deep_view()[i] by {
            assert(cloned::<String>(v@[i], r@[i]));
        }
        assert(r.deep_view() =~= v.deep_view());
    }
    r
}

/// Clones an optional collection of strings, keeping its abstract value.
fn clone_string_vec_opt(v: &Option<Vec<String>>) -> (r: Option<Vec<String>>)
    ensures
        r is Some <==> v is Some,
        opt_items_view(r) == opt_items_view(*v),
{
    match v {
        Some(vv) => Some(clone_string_vec(vv)),
        None => None,
    }
}

impl Clone for Matter {
    fn clone(&self) -> (r: Self)
        ensures
            r.deep_view() == self.deep_view(),
    {
        let r = Matter {
            name: self.name.clone(),
            tags: clone_string_vec_opt(&self.tags),
            links: clone_string_vec_opt(&self.links),
        };
        proof {
            assert(r.deep_view().tags == self.deep_view().tags);
            assert(r.deep_view().links == self.deep_view().links);
        }
        r
    }
}

/// One item line of a serialized header collection.
pub open spec fn item_line(item: Seq<char>) -> Seq<char> {
    "- "@ + item + "\n"@
}

/// The serialized lines of a header collection, one item per line, in order.
pub open spec fn item_lines(items: Seq<Seq<char>>) -> Seq<char>
    decreases items.len(),
{
    if items.len() == 0 {
        Seq::empty()
    } else {
        item_lines(items.drop_last()) + item_line(items.last())
    }
}

/// A labelled section of the serialized header; absent collections
/// contribute nothing.
pub open spec fn section_text(label: Seq<char>, items: Option<Seq<Seq<char>>>) -> Seq<char> {
    match items {
        Some(v) => label + item_lines(v),
        None => Seq::empty(),
    }
}

/// The fixed textual layout of a header block, built deterministically from
/// the name, tags and links.
pub open spec fn header_text(m: MatterView) -> Seq<char> {
    "---\nname: "@ + m.name + "\n"@ + section_text("tags:\n"@, m.tags) + section_text(
        "links:\n"@,
        m.links,
    ) + "---\n"@
}

/// Appends the serialized lines of `items` to `out`.
fn append_item_lines(out: &mut String, items: &Vec<String>)
    ensures
        final(out)@ == old(out)@ + item_lines(items.deep_view()),
{
    let ghost base = out@;
    let mut i: usize = 0;
    while i < items.len()
        invariant
            i <= items.len(),
            out@ == base + item_lines(items.deep_view().take(i as int)),
        decreases items.len() - i,
    {
        out.append("- ");
        out.append(items[i].as_str());
        out.append("\n");
        proof {
            let s = items.deep_view();
            assert(s.take(i as int + 1).drop_last() =~= s.take(i as int));
            assert(s.take(i as int + 1).last() == s[i as int]);
            assert(out@ =~= base + item_lines(s.take(i as int + 1)));
        }
        i += 1;
    }
    proof {
        assert(items.deep_view().take(items.len() as int) =~= items.deep_view());
    }
}

impl Matter {
    /// Serializes this header into its fixed textual layout.
    pub fn build(&self) -> (r: String)
        ensures
            r@ == header_text(self.deep_view()),
    {
        let mut out = String::new();
        out.append("---\nname: ");
        out.append(self.name.as_str());
        out.append("\n");
        match &self.tags {
            Some(ts) => {
                out.append("tags:\n");
                append_item_lines(&mut out, ts);
            },
            None => {},
        }
        match &self.links {
            Some(ls) => {
                out.append("links:\n");
                append_item_lines(&mut out, ls);
            },
            None => {},
        }
        out.append("---\n");
        proof {
            assert(out@ =~= header_text(self.deep_view()));
        }
        out
    }
}

/// Abstract value of a note identifier.
pub struct NoteIdView {
    pub timestamp: Seq<char>,
    pub slug: Seq<char>,
}

pub open spec fn is_digit(c: char) -> bool {
    '0' <= c && c <= '9'
}

/// Length of the leading run of decimal digits.
pub open spec fn digit_prefix_len(s: Seq<char>) -> nat
    decreases s.len(),
{
    if s.len() == 0 || !is_digit(s[0]) {
        0
    } else {
        (1 + digit_prefix_len(s.drop_first())) as nat
    }
}

/// What parsing a storage name yields: a nonempty run of decimal digits, a
/// separating dash, and a nonempty slug; anything else is malformed.
pub open spec fn spec_parse_id(s: Seq<char>) -> Option<NoteIdView> {
    let k = digit_prefix_len(s) as int;
    if 0 < k && k + 1 < s.len() && s[k] == '-' {
        Some(NoteIdView { timestamp: s.take(k), slug: s.skip(k + 1) })
    } else {
        None
    }
}

/// A scan that stops at the first non-digit finds the digit prefix.
proof fn lemma_digit_prefix(s: Seq<char>, i: int)
    requires
        0 <= i <= s.len(),
        forall|j: int| 0 <= j < i ==> is_digit(s[j]),
        i == s.len() || !is_digit(s[i]),
    ensures
        digit_prefix_len(s) == i,
    decreases i,
{
    if i == 0 {
    } else {
        assert(is_digit(s[0]));
        lemma_digit_prefix(s.drop_first(), i - 1);
    }
}

/// The stable graph-node key of a note, parsed from its storage name: a
/// timestamp prefix and a slug.
#[derive(Debug)]
pub struct NoteId {
    pub timestamp: String,
    pub slug: String,
}

impl DeepView for NoteId {
    type V = NoteIdView;

    open spec fn deep_view(&self) -> NoteIdView {
        NoteIdView { timestamp: self.timestamp@, slug: self.slug@ }
    }
}

impl Clone for NoteId {
    fn clone(&self) -> (r: Self)
        ensures
            r.deep_view() == self.deep_view(),
    {
        NoteId { timestamp: self.timestamp.clone(), slug: self.slug.clone() }
    }
}

/// How many leading characters of `name` are decimal digits.
fn digit_prefix(name: &str) -> (k: usize)
    ensures
        k == digit_prefix_len(name@),
        k <= name@.len(),
{
    let n = name.unicode_len();
    let mut i: usize = 0;
    while i < n
        invariant
            i <= n,
            n == name@.len(),
            forall|j: int| 0 <= j < i ==> is_digit(name@[j]),
        ensures
            i <= n,
            n == name@.len(),
            forall|j: int| 0 <= j < i ==> is_digit(name@[j]),
            i == n || !is_digit(name@[i as int]),
        decreases n - i,
    {
        let c = name.get_char(i);
        if !('0' <= c && c <= '9') {
            break ;
        }
        i += 1;
    }
    proof {
        lemma_digit_prefix(name@, i as int);
    }
    i
}

impl NoteId {
    /// Parses a note's storage name, deterministically: the timestamp
    /// prefix, a dash, and the slug, as [`spec_parse_id`] says.
    pub fn parse(name: &str) -> (r: Option<NoteId>)
        ensures
            r is Some <==> spec_parse_id(name@) is Some,
            r matches Some(id) ==> spec_parse_id(name@) matches Some(v) && id.deep_view() == v,
    {
        let n = name.unicode_len();
        let k = digit_prefix(name);
        if k > 0 && k < n {
            let c = name.get_char(k);
            if k + 1 < n && c == '-' {
                let timestamp = name.substring_char(0, k).to_owned();
                let slug = name.substring_char(k + 1, n).to_owned();
                proof {
                    assert(timestamp@ =~= name@.take(k as int));
                    assert(slug@ =~= name@.skip(k as int + 1));
                }
                return Some(NoteId { timestamp, slug });
            }
        }
        None
    }
}

/// Abstract value of a note.
pub struct NoteView {
    pub id: NoteIdView,
    pub path: Seq<char>,
    pub matter: MatterView,
    pub content: Seq<char>,
}

/// A stored note: its identifier, its storage location, its structured
/// header, and its raw body text.  The in-memory copy is authoritative for
/// writes; the on-disk file is the durable source of truth.
#[derive(Debug)]
pub struct Note {
    pub id: NoteId,
    pub path: String,
    pub matter: Matter,
    pub content: String,
}

impl DeepView for Note {
    type V = NoteView;

    open spec fn deep_view(&self) -> NoteView {
        NoteView {
            id: self.id.deep_view(),
            path: self.path@,
            matter: self.matter.deep_view(),
            content: self.content@,
        }
    }
}

impl Clone for Note {
    fn clone(&self) -> (r: Self)
        ensures
            r.deep_view() == self.deep_view(),
    {
        Note {
            id: self.id.clone(),
            path: self.path.clone(),
            matter: self.matter.clone(),
            content: self.content.clone(),
        }
    }
}

/// The effect of a header mutation: a full-file rewrite.  The caller must
/// truncate the file at `path`, write `header`, then write `body` immediately
/// after.  No partial-write recovery is attempted; a crash between the two
/// writes leaves a valid header with a truncated or absent body.
#[derive(Debug)]
pub struct FileRewrite {
    pub path: String,
    pub header: String,
    pub body: String,
}

/// Builds the collection with `owned` appended after every present item.
fn push_name(list: &Option<Vec<String>>, owned: String) -> (r: Vec<String>)
    ensures
        r.deep_view() == opt_items_view(*list).push(owned@),
{
    let mut r = match list {
        Some(v) => clone_string_vec(v),
        None => Vec::new(),
    };
    r.push(owned);
    proof {
        assert(r.deep_view() =~= opt_items_view(*list).push(r@.last()@));
    }
    r
}

/// Builds the collection holding, in order, every present item other than
/// `owned`.
fn remove_name(list: &Option<Vec<String>>, owned: &String) -> (r: Vec<String>)
    ensures
        r.deep_view() == opt_items_view(*list).filter(|t: Seq<char>| t != owned@),
{
    let mut r: Vec<String> = Vec::new();
    match list {
        Some(v) => {
            let ghost s = v.deep_view();
            let mut i: usize = 0;
            while i < v.len()
                invariant
                    i <= v.len(),
                    s == v.deep_view(),
                    r.deep_view() == s.take(i as int).filter(|t: Seq<char>| t != owned@),
                decreases v.len() - i,
            {
                let ghost r_before = r.deep_view();
                if !v[i].eq(owned) {
                    r.push(v[i].clone());
                    proof {
                        assert(r.deep_view() =~= r_before.push(s[i as int]));
                    }
                }
                proof {
                    reveal(Seq::filter);
                    assert(s.take(i as int + 1).drop_last() =~= s.take(i as int));
                    assert(s.take(i as int + 1).last() == s[i as int]);
                    assert(r.deep_view() =~= s.take(i as int + 1).filter(
                        |t: Seq<char>| t != owned@,
                    ));
                }
                i += 1;
            }
            proof {
                assert(s.take(v.len() as int) =~= s);
            }
        },
        None => {
            proof {
                reveal(Seq::filter);
                assert(r.deep_view() =~= opt_items_view(*list).filter(
                    |t: Seq<char>| t != owned@,
                ));
            }
        },
    }
    r
}

/// What matter::matter returns for a given document: the front matter block
/// and the content, or nothing when the document carries no front matter.
pub uninterp spec fn split_of(s: Seq<char>) -> Option<(Seq<char>, Seq<char>)>;

/// Relies on matter::matter: splits a document into its front matter block
/// and its content, both trimmed.  The result is a function of the input
/// alone, named by [`split_of`].
#[verifier::external_body]
fn split_matter(text: &String) -> (r: Option<(String, String)>)
    ensures
        r is Some <==> split_of(text@) is Some,
        r matches Some(p) ==> split_of(text@) matches Some(q) && p.0@ == q.0 && p.1@ == q.1,
{
    matter::matter(text.as_str())
}

/// Tests whether some string of `v` has the characters of `name`.
fn contains_string(v: &Vec<String>, name: &str) -> (r: bool)
    ensures
        r == v.deep_view().contains(name@),
{
    let owned: String = name.to_owned();
    let mut i: usize = 0;
    while i < v.len()
        invariant
            i <= v.len(),
            owned@ == name@,
            forall|j: int| 0 <= j < i ==> v.deep_view()[j] != name@,
        decreases v.len() - i,
    {
        if v[i].eq(&owned) {
            proof {
                assert(v.deep_view()[i as int] == name@);
            }
            return true;
        }
        i += 1;
    }
    false
}

impl Note {
    /// The abstract contents of this note's tag collection.
    pub open spec fn tags_view(self) -> Seq<Seq<char>> {
        opt_items_view(self.matter.tags)
    }

    /// The abstract contents of this note's link collection.
    pub open spec fn links_view(self) -> Seq<Seq<char>> {
        opt_items_view(self.matter.links)
    }

    /// Whether a link to `name` stands in this note's header.
    pub open spec fn spec_has_link(self, name: Seq<char>) -> bool {
        self.links_view().contains(name)
    }

    /// Whether the tag `name` stands in this note's header.
    pub open spec fn spec_has_tag(self, name: Seq<char>) -> bool {
        self.tags_view().contains(name)
    }

    /// Set semantics of the header collections: neither tags nor links hold
    /// a duplicate.  The mutation operations enforce this; storage does not.
    pub open spec fn wf(self) -> bool {
        unique_names(self.tags_view()) && unique_names(self.links_view())
    }

    /// Builds a note from its storage location and the full text of its
    /// file: the storage name yields the identifier, the front matter block
    /// is split from the body, the block is parsed as the header, and the
    /// body is kept unchanged as the content.  `None` when the storage name
    /// or the front matter is malformed.
    pub fn new(path: String, storage_name: &str, text: &String) -> (r: Option<Note>)
        ensures
            r is Some <==> (spec_parse_id(storage_name@) is Some && split_of(text@) is Some),
            r matches Some(note) ==> ({
                &&& spec_parse_id(storage_name@) matches Some(idv) && note.id.deep_view() == idv
                &&& note.path@ == path@
                &&& split_of(text@) matches Some(p) && note.matter.deep_view() == parse_header(p.0)
                    && note.content@ == p.1
            }),
    {
        let id = match NoteId::parse(storage_name) {
            Some(id) => id,
            None => {
                return None;
            },
        };
        let (matter_text, content) = match split_matter(text) {
            Some(p) => p,
            None => {
                return None;
            },
        };
        let matter = Matter::from_text(matter_text.as_str());
        Some(Note { id, path, matter, content })
    }

    /// The note's name, the key under which storage addresses it.
    pub fn name(&self) -> (r: &String)
        ensures
            r@ == self.matter.name@,
    {
        &self.matter.name
    }

    /// Checks if a link exists between the current note and `name`.
    pub fn has_link(&self, name: &str) -> (r: bool)
        ensures
            r == self.spec_has_link(name@),
    {
        match &self.matter.links {
            Some(links) => contains_string(links, name),
            None => false,
        }
    }

    /// Checks if a tag `name` exists within this note's tags.
    pub fn has_tag(&self, name: &str) -> (r: bool)
        ensures
            r == self.spec_has_tag(name@),
    {
        match &self.matter.tags {
            Some(tags) => contains_string(tags, name),
            None => false,
        }
    }

    /// The rewrite that persists this note's current header and body.
    fn rewrite(&self) -> (w: FileRewrite)
        ensures
            w.path@ == self.path@,
            w.header@ == header_text(self.matter.deep_view()),
            w.body@ == self.content@,
    {
        FileRewrite { path: self.path.clone(), header: self.matter.build(), body: self.content.clone() }
    }

    /// Adds `name` as a link of this note.  When the link is already present
    /// this is a successful no-op: nothing changes and no file write is owed.
    /// Otherwise `name` is appended to the link collection, the relative
    /// order of the other links is kept, and the returned rewrite persists
    /// the rebuilt header followed by the unchanged body.
    pub fn add_link(&mut self, name: &str) -> (w: Option<FileRewrite>)
        ensures
            final(self).spec_has_link(name@),
            old(self).wf() ==> final(self).wf(),
            old(self).spec_has_link(name@) ==> w is None && *final(self) == *old(self),
            !old(self).spec_has_link(name@) ==> ({
                &&& final(self).id == old(self).id
                &&& final(self).path == old(self).path
                &&& final(self).content == old(self).content
                &&& final(self).matter.name == old(self).matter.name
                &&& final(self).matter.tags == old(self).matter.tags
                &&& final(self).links_view() == old(self).links_view().push(name@)
                &&& w matches Some(fw) && fw.path@ == old(self).path@ && fw.header@
                    == header_text(final(self).matter.deep_view()) && fw.body@ == old(
                    self,
                ).content@
            }),
    {
        if self.has_link(name) {
            return None;
        }
        let new_links = push_name(&self.matter.links, name.to_owned());
        self.matter.links = Some(new_links);
        proof {
            assert(final(self).links_view().last() == name@);
            assert(final(self).spec_has_link(name@));
            if old(self).wf() {
                lemma_push_fresh_unique(old(self).links_view(), name@);
            }
        }
        Some(self.rewrite())
    }

    /// Removes `name` as a link of this note.  When no such link is present
    /// this is a successful no-op: nothing changes and no file write is owed.
    /// Otherwise every occurrence of `name` leaves the link collection, the
    /// relative order of the survivors is kept, and the returned rewrite
    /// persists the rebuilt header followed by the unchanged body.
    pub fn remove_link(&mut self, name: &str) -> (w: Option<FileRewrite>)
        ensures
            !final(self).spec_has_link(name@),
            old(self).wf() ==> final(self).wf(),
            !old(self).spec_has_link(name@) ==> w is None && *final(self) == *old(self),
            old(self).spec_has_link(name@) ==> ({
                &&& final(self).id == old(self).id
                &&& final(self).path == old(self).path
                &&& final(self).content == old(self).content
                &&& final(self).matter.name == old(self).matter.name
                &&& final(self).matter.tags == old(self).matter.tags
                &&& final(self).links_view() == old(self).links_view().filter(
                    |t: Seq<char>| t != name@,
                )
                &&& w matches Some(fw) && fw.path@ == old(self).path@ && fw.header@
                    == header_text(final(self).matter.deep_view()) && fw.body@ == old(
                    self,
                ).content@
            }),
    {
        if !self.has_link(name) {
            return None;
        }
        let new_links = remove_name(&self.matter.links, &name.to_owned());
        self.matter.links = Some(new_links);
        proof {
            lemma_filtered_out(old(self).links_view(), name@);
            if old(self).wf() {
                lemma_filter_unique(old(self).links_view(), |t: Seq<char>| t != name@);
            }
        }
        Some(self.rewrite())
    }

    /// Adds `name` as a tag of this note.  When the tag is already present
    /// this is a successful no-op: nothing changes and no file write is owed.
    /// Otherwise `name` is appended to the tag collection, the relative order
    /// of the other tags is kept, and the returned rewrite persists the
    /// rebuilt header followed by the unchanged body.
    pub fn add_tag(&mut self, name: &str) -> (w: Option<FileRewrite>)
        ensures
            final(self).spec_has_tag(name@),
            old(self).wf() ==> final(self).wf(),
            old(self).spec_has_tag(name@) ==> w is None && *final(self) == *old(self),
            !old(self).spec_has_tag(name@) ==> ({
                &&& final(self).id == old(self).id
                &&& final(self).path == old(self).path
                &&& final(self).content == old(self).content
                &&& final(self).matter.name == old(self).matter.name
                &&& final(self).matter.links == old(self).matter.links
                &&& final(self).tags_view() == old(self).tags_view().push(name@)
                &&& w matches Some(fw) && fw.path@ == old(self).path@ && fw.header@
                    == header_text(final(self).matter.deep_view()) && fw.body@ == old(
                    self,
                ).content@
            }),
    {
        if self.has_tag(name) {
            return None;
        }
        let new_tags = push_name(&self.matter.tags, name.to_owned());
        self.matter.tags = Some(new_tags);
        proof {
            assert(final(self).tags_view().last() == name@);
            assert(final(self).spec_has_tag(name@));
            if old(self).wf() {
                lemma_push_fresh_unique(old(self).tags_view(), name@);
            }
        }
        Some(self.rewrite())
    }

    /// Removes `name` as a tag of this note.  When no such tag is present
    /// this is a successful no-op: nothing changes and no file write is owed.
    /// Otherwise every occurrence of `name` leaves the tag collection, the
    /// relative order of the survivors is kept, and the returned rewrite
    /// persists the rebuilt header followed by the unchanged body.
    pub fn remove_tag(&mut self, name: &str) -> (w: Option<FileRewrite>)
        ensures
            !final(self).spec_has_tag(name@),
            old(self).wf() ==> final(self).wf(),
            !old(self).spec_has_tag(name@) ==> w is None && *final(self) == *old(self),
            old(self).spec_has_tag(name@) ==> ({
                &&& final(self).id == old(self).id
                &&& final(self).path == old(self).path
                &&& final(self).content == old(self).content
                &&& final(self).matter.name == old(self).matter.name
                &&& final(self).matter.links == old(self).matter.links
                &&& final(self).tags_view() == old(self).tags_view().filter(
                    |t: Seq<char>| t != name@,
                )
                &&& w matches Some(fw) && fw.path@ == old(self).path@ && fw.header@
                    == header_text(final(self).matter.deep_view()) && fw.body@ == old(
                    self,
                ).content@
            }),
    {
        if !self.has_tag(name) {
            return None;
        }
        let new_tags = remove_name(&self.matter.tags, &name.to_owned());
        self.matter.tags = Some(new_tags);
        proof {
            lemma_filtered_out(old(self).tags_view(), name@);
            if old(self).wf() {
                lemma_filter_unique(old(self).tags_view(), |t: Seq<char>| t != name@);
            }
        }
        Some(self.rewrite())
    }
}

/// Nothing equal to `name` survives filtering `name` out.
proof fn lemma_filtered_out(s: Seq<Seq<char>>, name: Seq<char>)
    ensures
        !s.filter(|t: Seq<char>| t != name).contains(name),
{
    let f = s.filter(|t: Seq<char>| t != name);
    if f.contains(name) {
        let i = choose|i: int| 0 <= i < f.len() && f[i] == name;
        assert(f[i] != name);
    }
}

/// No two entries of the collection are equal.
pub open spec fn unique_names(s: Seq<Seq<char>>) -> bool {
    forall|i: int, j: int| 0 <= i < j < s.len() ==> s[i] != s[j]
}

/// Appending a fresh entry keeps the collection duplicate-free.
proof fn lemma_push_fresh_unique(s: Seq<Seq<char>>, x: Seq<char>)
    requires
        unique_names(s),
        !s.contains(x),
    ensures
        unique_names(s.push(x)),
{
    let t = s.push(x);
    assert forall|i: int, j: int| 0 <= i < j < t.len() implies t[i] != t[j] by {
        if j == s.len() as int {
            if s[i] == x {
                assert(s.contains(x));
            }
        }
    }
}

/// Every entry that survives a filter stood in the collection.
proof fn lemma_filter_members(s: Seq<Seq<char>>, pred: spec_fn(Seq<char>) -> bool)
    ensures
        forall|x: Seq<char>| #[trigger] s.filter(pred).contains(x) ==> s.contains(x),
    decreases s.len(),
{
    reveal(Seq::filter);
    if s.len() > 0 {
        let d = s.drop_last();
        lemma_filter_members(d, pred);
        assert forall|x: Seq<char>| #[trigger] s.filter(pred).contains(x) implies s.contains(
            x,
        ) by {
            let f = s.filter(pred);
            let i = choose|i: int| 0 <= i < f.len() && f[i] == x;
            if pred(s.last()) && i == f.len() - 1 {
                assert(s[s.len() - 1] == x);
            } else {
                assert(d.filter(pred)[i] == x);
                assert(d.filter(pred).contains(x));
                let j = choose|j: int| 0 <= j < d.len() && d[j] == x;
                assert(s[j] == x);
            }
        }
    }
}

/// Filtering keeps a duplicate-free collection duplicate-free.
proof fn lemma_filter_unique(s: Seq<Seq<char>>, pred: spec_fn(Seq<char>) -> bool)
    requires
        unique_names(s),
    ensures
        unique_names(s.filter(pred)),
    decreases s.len(),
{
    reveal(Seq::filter);
    if s.len() > 0 {
        let d = s.drop_last();
        assert(unique_names(d)) by {
            assert forall|i: int, j: int| 0 <= i < j < d.len() implies d[i] != d[j] by {
                assert(s[i] == d[i] && s[j] == d[j]);
            }
        }
        lemma_filter_unique(d, pred);
        if pred(s.last()) {
            let fd = d.filter(pred);
            assert(!fd.contains(s.last())) by {
                lemma_filter_members(d, pred);
                if fd.contains(s.last()) {
                    let j = choose|j: int| 0 <= j < d.len() && d[j] == s.last();
                    assert(s[j] == s[s.len() - 1]);
                }
            }
            lemma_push_fresh_unique(fd, s.last());
        }
    }
}

/// Which header section subsequent item lines belong to while parsing.
#[derive(Clone, Copy, Debug, PartialEq, Eq, Structural)]
pub enum Section {
    Outside,
    Tags,
    Links,
}

/// Parser state: the header read so far and the open section.
pub struct ParseState {
    pub m: MatterView,
    pub sec: Section,
}

/// The header before any line was read.
pub open spec fn empty_matter_view() -> MatterView {
    MatterView { name: Seq::empty(), tags: None, links: None }
}

/// The contents of an optional abstract collection, empty when absent.
pub open spec fn opt_or_empty(o: Option<Seq<Seq<char>>>) -> Seq<Seq<char>> {
    match o {
        Some(s) => s,
        None => Seq::empty(),
    }
}

pub open spec fn starts_with(line: Seq<char>, prefix: Seq<char>) -> bool {
    line.len() >= prefix.len() && line.take(prefix.len() as int) == prefix
}

/// How one header line changes the parser state: a `name: ` line sets the
/// name and closes any open section, a `tags:` or `links:` line opens that
/// section, an item line joins the open section, and every other line is
/// ignored.
pub open spec fn spec_classify(st: ParseState, line: Seq<char>) -> ParseState {
    if starts_with(line, "name: "@) {
        ParseState {
            m: MatterView {
                name: line.skip("name: "@.len() as int),
                tags: st.m.tags,
                links: st.m.links,
            },
            sec: Section::Outside,
        }
    } else if line == "tags:"@ {
        ParseState {
            m: MatterView {
                name: st.m.name,
                tags: Some(opt_or_empty(st.m.tags)),
                links: st.m.links,
            },
            sec: Section::Tags,
        }
    } else if line == "links:"@ {
        ParseState {
            m: MatterView {
                name: st.m.name,
                tags: st.m.tags,
                links: Some(opt_or_empty(st.m.links)),
            },
            sec: Section::Links,
        }
    } else if starts_with(line, "- "@) {
        match st.sec {
            Section::Tags => ParseState {
                m: MatterView {
                    name: st.m.name,
                    tags: Some(opt_or_empty(st.m.tags).push(line.skip("- "@.len() as int))),
                    links: st.m.links,
                },
                sec: st.sec,
            },
            Section::Links => ParseState {
                m: MatterView {
                    name: st.m.name,
                    tags: st.m.tags,
                    links: Some(opt_or_empty(st.m.links).push(line.skip("- "@.len() as int))),
                },
                sec: st.sec,
            },
            Section::Outside => st,
        }
    } else {
        st
    }
}

/// A left-to-right scan of a header block: `cur` is the line being read,
/// each newline hands the completed line to [`spec_classify`], and a final
/// unterminated line is classified too.
pub open spec fn spec_scan(st: ParseState, s: Seq<char>, cur: Seq<char>) -> ParseState
    decreases s.len(),
{
    if s.len() == 0 {
        if cur.len() == 0 {
            st
        } else {
            spec_classify(st, cur)
        }
    } else if s[0] == '\n' {
        spec_scan(spec_classify(st, cur), s.drop_first(), Seq::empty())
    } else {
        spec_scan(st, s.drop_first(), cur.push(s[0]))
    }
}

/// What parsing a header block in the fixed textual layout yields.
pub open spec fn parse_header(s: Seq<char>) -> MatterView {
    spec_scan(ParseState { m: empty_matter_view(), sec: Section::Outside }, s, Seq::empty()).m
}

/// Relies on String::push: appends the given character to the end of the
/// string.
#[verifier::external_body]
fn push_char(s: &mut String, c: char)
    ensures
        final(s)@ == old(s)@.push(c),
{
    s.push(c);
}

/// Applies one completed header line to the parser state, as
/// [`spec_classify`] says.
fn classify_line(m: &mut Matter, sec: &mut Section, line: &String)
    ensures
        ({
            let st = spec_classify(ParseState { m: old(m).deep_view(), sec: *old(sec) }, line@);
            final(m).deep_view() == st.m && *final(sec) == st.sec
        }),
{
    proof {
        reveal_strlit("name: ");
        reveal_strlit("tags:");
        reveal_strlit("links:");
        reveal_strlit("- ");
    }
    let n = line.as_str().unicode_len();
    if n >= 6 && String::from_str(line.as_str().substring_char(0, 6)).eq(
        &String::from_str("name: "),
    ) {
        proof {
            assert(line@.take(6) == "name: "@);
            assert(starts_with(line@, "name: "@));
        }
        m.name = line.as_str().substring_char(6, n).to_owned();
        *sec = Section::Outside;
        proof {
            assert(m.name@ =~= line@.skip(6));
        }
        return ;
    }
    proof {
        assert(!starts_with(line@, "name: "@));
    }
    if line.eq(&String::from_str("tags:")) {
        let v = match &m.tags {
            Some(v) => clone_string_vec(v),
            None => Vec::new(),
        };
        proof {
            assert(v.deep_view() =~= opt_or_empty(old(m).deep_view().tags));
        }
        m.tags = Some(v);
        *sec = Section::Tags;
        return ;
    }
    if line.eq(&String::from_str("links:")) {
        let v = match &m.links {
            Some(v) => clone_string_vec(v),
            None => Vec::new(),
        };
        proof {
            assert(v.deep_view() =~= opt_or_empty(old(m).deep_view().links));
        }
        m.links = Some(v);
        *sec = Section::Links;
        return ;
    }
    if n >= 2 && String::from_str(line.as_str().substring_char(0, 2)).eq(&String::from_str("- ")) {
        proof {
            assert(line@.take(2) == "- "@);
            assert(starts_with(line@, "- "@));
        }
        let item = line.as_str().substring_char(2, n).to_owned();
        proof {
            assert(item@ =~= line@.skip(2));
        }
        match sec {
            Section::Tags => {
                let v = push_name(&m.tags, item);
                m.tags = Some(v);
            },
            Section::Links => {
                let v = push_name(&m.links, item);
                m.links = Some(v);
            },
            Section::Outside => {},
        }
        return ;
    }
    proof {
        assert(!starts_with(line@, "- "@));
    }
}

impl Matter {
    /// Parses a header block in the fixed textual layout, line by line.
    /// Unknown lines are ignored, so parsing is total.
    pub fn from_text(text: &str) -> (r: Matter)
        ensures
            r.deep_view() == parse_header(text@),
    {
        let n = text.unicode_len();
        let mut m = Matter { name: String::new(), tags: None, links: None };
        let mut sec = Section::Outside;
        let mut cur = String::new();
        let mut i: usize = 0;
        proof {
            assert(m.deep_view() == empty_matter_view());
            assert(text@.skip(0) =~= text@);
        }
        while i < n
            invariant
                i <= n,
                n == text@.len(),
                parse_header(text@) == spec_scan(
                    ParseState { m: m.deep_view(), sec: sec },
                    text@.skip(i as int),
                    cur@,
                ).m,
            decreases n - i,
        {
            let c = text.get_char(i);
            proof {
                let s = text@.skip(i as int);
                assert(s.len() > 0);
                assert(s[0] == text@[i as int]);
                assert(s.drop_first() =~= text@.skip(i as int + 1));
            }
            if c == '\n' {
                classify_line(&mut m, &mut sec, &cur);
                cur = String::new();
            } else {
                push_char(&mut cur, c);
            }
            i += 1;
        }
        proof {
            assert(text@.skip(n as int) =~= Seq::<char>::empty());
        }
        if cur.as_str().unicode_len() > 0 {
            classify_line(&mut m, &mut sec, &cur);
        }
        m
    }
}

} // verus!

verus! {

/// A header whose name and items hold no newline: exactly those headers
/// serialize to lines that parse back.
pub open spec fn wf_matter(m: MatterView) -> bool {
    &&& !m.name.contains('\n')
    &&& match m.tags {
        Some(ts) => forall|i: int| 0 <= i < ts.len() ==> !(#[trigger] ts[i]).contains('\n'),
        None => true,
    }
    &&& match m.links {
        Some(ls) => forall|i: int| 0 <= i < ls.len() ==> !(#[trigger] ls[i]).contains('\n'),
        None => true,
    }
}

/// The text between the delimiters of a serialized header.
pub open spec fn header_inner(m: MatterView) -> Seq<char> {
    "name: "@ + m.name + "\n"@ + section_text("tags:\n"@, m.tags) + section_text(
        "links:\n"@,
        m.links,
    )
}

/// The serialized header is the inner text between the two delimiter lines.
pub proof fn lemma_header_text_shape(m: MatterView)
    ensures
        header_text(m) == "---\n"@ + header_inner(m) + "---\n"@,
{
    reveal_strlit("---\nname: ");
    reveal_strlit("---\n");
    reveal_strlit("name: ");
    assert("---\nname: "@ =~= "---\n"@ + "name: "@);
    assert(header_text(m) =~= "---\n"@ + header_inner(m) + "---\n"@);
}

/// Scanning a newline-terminated line classifies it and goes on with the
/// rest.
proof fn lemma_scan_consumes_line(st: ParseState, line: Seq<char>, rest: Seq<char>, cur: Seq<char>)
    requires
        !line.contains('\n'),
    ensures
        spec_scan(st, line + "\n"@ + rest, cur) == spec_scan(
            spec_classify(st, cur + line),
            rest,
            Seq::empty(),
        ),
    decreases line.len(),
{
    reveal_strlit("\n");
    let s = line + "\n"@ + rest;
    if line.len() == 0 {
        assert(s =~= "\n"@ + rest);
        assert(s[0] == '\n');
        assert(s.drop_first() =~= rest);
        assert(cur + line =~= cur);
    } else {
        assert(line[0] != '\n') by {
            if line[0] == '\n' {
                assert(line.contains('\n'));
            }
        }
        assert(s[0] == line[0]);
        assert(s.drop_first() =~= line.drop_first() + "\n"@ + rest);
        assert(!line.drop_first().contains('\n')) by {
            if line.drop_first().contains('\n') {
                let i = choose|i: int|
                    0 <= i < line.drop_first().len() && line.drop_first()[i] == '\n';
                assert(line[i + 1] == '\n');
                assert(line.contains('\n'));
            }
        }
        lemma_scan_consumes_line(st, line.drop_first(), rest, cur.push(line[0]));
        assert(cur.push(line[0]) + line.drop_first() =~= cur + line);
    }
}

/// The serialized item lines, read from the front.
proof fn lemma_item_lines_front(items: Seq<Seq<char>>)
    requires
        items.len() > 0,
    ensures
        item_lines(items) == item_line(items.first()) + item_lines(items.drop_first()),
    decreases items.len(),
{
    if items.len() == 1 {
        assert(items.drop_last() =~= Seq::<Seq<char>>::empty());
        assert(items.drop_first() =~= Seq::<Seq<char>>::empty());
        assert(item_lines(items) =~= item_line(items.first()) + item_lines(items.drop_first()));
    } else {
        let d = items.drop_last();
        lemma_item_lines_front(d);
        assert(d.drop_first() =~= items.drop_first().drop_last());
        assert(items.drop_first().last() == items.last());
        assert(item_lines(items) =~= item_line(items.first()) + item_lines(items.drop_first()));
    }
}

/// A `name: ` line sets the name and closes the open section.
proof fn lemma_classify_name_line(st: ParseState, name: Seq<char>)
    ensures
        spec_classify(st, "name: "@ + name) == (ParseState {
            m: MatterView { name, tags: st.m.tags, links: st.m.links },
            sec: Section::Outside,
        }),
{
    reveal_strlit("name: ");
    let line = "name: "@ + name;
    assert(line.take(6) =~= "name: "@);
    assert(starts_with(line, "name: "@));
    assert(line.skip(6) =~= name);
}

/// An item line pushes its item onto the open section.
proof fn lemma_classify_item(st: ParseState, item: Seq<char>)
    requires
        st.sec == Section::Tags || st.sec == Section::Links,
    ensures
        st.sec == Section::Tags ==> spec_classify(st, "- "@ + item) == (ParseState {
            m: MatterView {
                name: st.m.name,
                tags: Some(opt_or_empty(st.m.tags).push(item)),
                links: st.m.links,
            },
            sec: st.sec,
        }),
        st.sec == Section::Links ==> spec_classify(st, "- "@ + item) == (ParseState {
            m: MatterView {
                name: st.m.name,
                tags: st.m.tags,
                links: Some(opt_or_empty(st.m.links).push(item)),
            },
            sec: st.sec,
        }),
{
    reveal_strlit("- ");
    reveal_strlit("name: ");
    reveal_strlit("tags:");
    reveal_strlit("links:");
    let line = "- "@ + item;
    assert(line.take(2) =~= "- "@);
    assert(starts_with(line, "- "@));
    assert(!starts_with(line, "name: "@)) by {
        if starts_with(line, "name: "@) {
            assert(line.take(6)[0] == 'n');
            assert(line[0] == '-');
        }
    }
    assert(line != "tags:"@) by {
        if line == "tags:"@ {
            assert(line[0] == 't');
            assert(line[0] == '-');
        }
    }
    assert(line != "links:"@) by {
        if line == "links:"@ {
            assert(line[0] == 'l');
            assert(line[0] == '-');
        }
    }
    assert(line.skip(2) =~= item);
}

/// Scanning a section's item lines appends its items, in order, to the open
/// section.
proof fn lemma_scan_items(st: ParseState, items: Seq<Seq<char>>, rest: Seq<char>)
    requires
        st.sec == Section::Tags || st.sec == Section::Links,
        st.sec == Section::Tags ==> st.m.tags is Some,
        st.sec == Section::Links ==> st.m.links is Some,
        forall|i: int| 0 <= i < items.len() ==> !(#[trigger] items[i]).contains('\n'),
    ensures
        st.sec == Section::Tags ==> spec_scan(st, item_lines(items) + rest, Seq::empty())
            == spec_scan(
            ParseState {
                m: MatterView {
                    name: st.m.name,
                    tags: Some(opt_or_empty(st.m.tags) + items),
                    links: st.m.links,
                },
                sec: st.sec,
            },
            rest,
            Seq::empty(),
        ),
        st.sec == Section::Links ==> spec_scan(st, item_lines(items) + rest, Seq::empty())
            == spec_scan(
            ParseState {
                m: MatterView {
                    name: st.m.name,
                    tags: st.m.tags,
                    links: Some(opt_or_empty(st.m.links) + items),
                },
                sec: st.sec,
            },
            rest,
            Seq::empty(),
        ),
    decreases items.len(),
{
    reveal_strlit("- ");
    if items.len() == 0 {
        assert(item_lines(items) + rest =~= rest);
        assert(opt_or_empty(st.m.tags) + items =~= opt_or_empty(st.m.tags));
        assert(opt_or_empty(st.m.links) + items =~= opt_or_empty(st.m.links));
        if st.sec == Section::Tags {
            assert(Some(opt_or_empty(st.m.tags) + items) == st.m.tags);
        } else {
            assert(Some(opt_or_empty(st.m.links) + items) == st.m.links);
        }
    } else {
        lemma_item_lines_front(items);
        let line = "- "@ + items.first();
        assert(!line.contains('\n')) by {
            assert(!items[0].contains('\n'));
            if line.contains('\n') {
                let i = choose|i: int| 0 <= i < line.len() && line[i] == '\n';
                if i < 2 {
                    assert("- "@[i] == '\n');
                } else {
                    assert(items.first()[i - 2] == '\n');
                    assert(items.first().contains('\n'));
                }
            }
        }
        assert(item_lines(items) + rest =~= line + "\n"@ + (item_lines(items.drop_first())
            + rest)) by {
            assert(item_line(items.first()) =~= line + "\n"@);
        }
        lemma_scan_consumes_line(st, line, item_lines(items.drop_first()) + rest, Seq::empty());
        assert(Seq::<char>::empty() + line =~= line);
        lemma_classify_item(st, items.first());
        let st2 = spec_classify(st, line);
        assert forall|i: int| 0 <= i < items.drop_first().len() implies !(#[trigger] items.drop_first()[i]).contains('\n') by {
            assert(items.drop_first()[i] == items[i + 1]);
        }
        lemma_scan_items(st2, items.drop_first(), rest);
        if st.sec == Section::Tags {
            assert(opt_or_empty(st2.m.tags) + items.drop_first() =~= opt_or_empty(st.m.tags)
                + items);
        } else {
            assert(opt_or_empty(st2.m.links) + items.drop_first() =~= opt_or_empty(st.m.links)
                + items);
        }
    }
}

/// Round trip of the header layout: parsing the serialized inner block of a
/// well-formed header yields that header back, tags and links included, in
/// order.  Together with [`lemma_header_text_shape`] this ties
/// [`Matter::build`] to [`Matter::from_text`]: what the mutation engine
/// writes between the delimiter lines, the reader parses back unchanged.
pub proof fn lemma_header_round_trip(m: MatterView)
    requires
        wf_matter(m),
    ensures
        parse_header(header_inner(m)) == m,
{
    reveal_strlit("name: ");
    reveal_strlit("tags:");
    reveal_strlit("links:");
    reveal_strlit("tags:\n");
    reveal_strlit("links:\n");
    reveal_strlit("\n");
    let st0 = ParseState { m: empty_matter_view(), sec: Section::Outside };
    let name_line = "name: "@ + m.name;
    let tags_part = section_text("tags:\n"@, m.tags);
    let links_part = section_text("links:\n"@, m.links);
    let rest0 = tags_part + links_part;
    assert(!name_line.contains('\n')) by {
        if name_line.contains('\n') {
            let i = choose|i: int| 0 <= i < name_line.len() && name_line[i] == '\n';
            if i < 6 {
                assert("name: "@[i] == '\n');
            } else {
                assert(m.name[i - 6] == '\n');
                assert(m.name.contains('\n'));
            }
        }
    }
    assert(header_inner(m) =~= name_line + "\n"@ + rest0);
    lemma_scan_consumes_line(st0, name_line, rest0, Seq::empty());
    assert(Seq::<char>::empty() + name_line =~= name_line);
    lemma_classify_name_line(st0, m.name);
    let st1 = ParseState {
        m: MatterView { name: m.name, tags: None, links: None },
        sec: Section::Outside,
    };
    assert(spec_scan(st0, header_inner(m), Seq::empty()) == spec_scan(st1, rest0, Seq::empty()));
    // The tags section, when present.
    let st2 = match m.tags {
        Some(ts) => ParseState {
            m: MatterView { name: m.name, tags: Some(ts), links: None },
            sec: Section::Tags,
        },
        None => st1,
    };
    assert(spec_scan(st1, rest0, Seq::empty()) == spec_scan(st2, links_part, Seq::empty())) by {
        match m.tags {
            Some(ts) => {
                assert(rest0 =~= "tags:"@ + "\n"@ + (item_lines(ts) + links_part)) by {
                    assert("tags:\n"@ =~= "tags:"@ + "\n"@);
                }
                assert(!"tags:"@.contains('\n'));
                lemma_scan_consumes_line(st1, "tags:"@, item_lines(ts) + links_part, Seq::empty());
                assert(Seq::<char>::empty() + "tags:"@ =~= "tags:"@);
                assert(!starts_with("tags:"@, "name: "@));
                let stt = ParseState {
                    m: MatterView { name: m.name, tags: Some(Seq::empty()), links: None },
                    sec: Section::Tags,
                };
                assert(spec_classify(st1, "tags:"@) == stt);
                lemma_scan_items(stt, ts, links_part);
                assert(opt_or_empty(stt.m.tags) + ts =~= ts);
            },
            None => {
                assert(rest0 =~= links_part);
            },
        }
    }
    // The links section, when present.
    assert(spec_scan(st2, links_part, Seq::empty()).m == m) by {
        match m.links {
            Some(ls) => {
                assert(links_part =~= "links:"@ + "\n"@ + (item_lines(ls) + Seq::<
                    char,
                >::empty())) by {
                    assert("links:\n"@ =~= "links:"@ + "\n"@);
                    assert(item_lines(ls) + Seq::<char>::empty() =~= item_lines(ls));
                }
                assert(!"links:"@.contains('\n'));
                lemma_scan_consumes_line(
                    st2,
                    "links:"@,
                    item_lines(ls) + Seq::<char>::empty(),
                    Seq::empty(),
                );
                assert(Seq::<char>::empty() + "links:"@ =~= "links:"@);
                assert(!starts_with("links:"@, "name: "@)) by {
                    if starts_with("links:"@, "name: "@) {
                        assert("links:"@.take(6)[0] == 'n');
                        assert("links:"@[0] == 'l');
                    }
                }
                assert("links:"@ != "tags:"@);
                let stl = ParseState {
                    m: MatterView { name: m.name, tags: st2.m.tags, links: Some(Seq::empty()) },
                    sec: Section::Links,
                };
                assert(spec_classify(st2, "links:"@) == stl);
                lemma_scan_items(stl, ls, Seq::empty());
                assert(opt_or_empty(stl.m.links) + ls =~= ls);
                assert(spec_scan(st2, links_part, Seq::empty()).m =~= m);
            },
            None => {
                assert(links_part =~= Seq::<char>::empty());
                assert(spec_scan(st2, links_part, Seq::empty()).m =~= m);
            },
        }
    }
}

} // verus!
