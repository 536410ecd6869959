use vstd::prelude::*;
use crate::text::{copy_opt_string, opt_text, usize_text, decimal_text, texts, lemma_map_push};

verus! {

/// One namespaced extension element name of a feed item, with the text
/// values of its elements in document order.
pub struct FeedExtension {
    pub namespace: String,
    pub name: String,
    pub values: Vec<Option<String>>,
}

/// The plain value of a feed extension.
pub struct FeedExtensionView {
    pub namespace: Seq<char>,
    pub name: Seq<char>,
    pub values: Seq<Option<Seq<char>>>,
}

impl View for FeedExtension {
    type V = FeedExtensionView;

    open spec fn view(&self) -> FeedExtensionView {
        FeedExtensionView {
            namespace: self.namespace@,
            name: self.name@,
            values: self.values@.map_values(|v: Option<String>| opt_text(v)),
        }
    }
}

/// An item of a nyaa.si RSS feed: its title, its link and its extensions
/// (nyaa.si puts seeders, size and downloads in the `nyaa` namespace).
pub struct NyaaItem {
    pub title: Option<String>,
    pub link: Option<String>,
    pub extensions: Vec<FeedExtension>,
}

/// The plain value of a feed item.
pub struct NyaaItemView {
    pub title: Option<Seq<char>>,
    pub link: Option<Seq<char>>,
    pub extensions: Seq<FeedExtensionView>,
}

impl View for NyaaItem {
    type V = NyaaItemView;

    open spec fn view(&self) -> NyaaItemView {
        NyaaItemView {
            title: opt_text(self.title),
            link: opt_text(self.link),
            extensions: self.extensions@.map_values(|e: FeedExtension| e@),
        }
    }
}

/// The items of a searched feed.
pub struct NyaaChannel {
    pub items: Vec<NyaaItem>,
    pub selected_item: Option<NyaaItem>,
}

/// The plain value of a channel.
pub struct NyaaChannelView {
    pub items: Seq<NyaaItemView>,
    pub selected_item: Option<NyaaItemView>,
}

/// The plain values of a list of items.
pub open spec fn item_views(items: Seq<NyaaItem>) -> Seq<NyaaItemView> {
    items.map_values(|i: NyaaItem| i@)
}

/// The plain value of an optional item.
pub open spec fn opt_item_view(item: Option<NyaaItem>) -> Option<NyaaItemView> {
    match item {
        Some(i) => Some(i@),
        None => None,
    }
}

impl View for NyaaChannel {
    type V = NyaaChannelView;

    open spec fn view(&self) -> NyaaChannelView {
        NyaaChannelView { items: item_views(self.items@), selected_item: opt_item_view(self.selected_item) }
    }
}

/// Whether `e` is the extension `nyaa:key`.
pub open spec fn is_nyaa_entry(e: FeedExtensionView, key: Seq<char>) -> bool {
    e.namespace == "nyaa"@ && e.name == key
}

/// The first extension `nyaa:key` at or after index `k`.
pub open spec fn find_nyaa_from(exts: Seq<FeedExtensionView>, key: Seq<char>, k: int) -> Option<FeedExtensionView>
    decreases exts.len() - k,
{
    if k < 0 || k >= exts.len() {
        None
    } else if is_nyaa_entry(exts[k], key) {
        Some(exts[k])
    } else {
        find_nyaa_from(exts, key, k + 1)
    }
}

/// The text of the first `nyaa:key` element of an item, if it has one.
pub open spec fn nyaa_value(item: NyaaItemView, key: Seq<char>) -> Option<Seq<char>> {
    match find_nyaa_from(item.extensions, key, 0) {
        Some(e) => if e.values.len() > 0 {
            e.values[0]
        } else {
            None
        },
        None => None,
    }
}

/// Whether an item has extensions in the `nyaa` namespace.
pub open spec fn has_nyaa(item: NyaaItemView) -> bool {
    exists|i: int| 0 <= i < item.extensions.len() && #[trigger] item.extensions[i].namespace == "nyaa"@
}

/// The table row shown for the item at index `idx`: its index, title, size
/// and seeders; none when the item lacks any of them.
pub open spec fn item_row(item: NyaaItemView, idx: nat) -> Option<Seq<Seq<char>>> {
    if has_nyaa(item) && item.title is Some && nyaa_value(item, "size"@) is Some && nyaa_value(item, "seeders"@) is Some {
        Some(seq![decimal_text(idx), item.title->0, nyaa_value(item, "size"@)->0, nyaa_value(item, "seeders"@)->0])
    } else {
        None
    }
}

/// The rows shown for the first `n` items.
pub open spec fn item_rows(items: Seq<NyaaItemView>, n: nat) -> Seq<Seq<Seq<char>>>
    decreases n,
{
    if n == 0 {
        Seq::empty()
    } else {
        item_rows(items, (n - 1) as nat) + match item_row(items[n - 1], (n - 1) as nat) {
            Some(r) => seq![r],
            None => Seq::empty(),
        }
    }
}

/// The text shown when an optional text is missing.
pub open spec fn or_text(s: Option<Seq<char>>, fallback: Seq<char>) -> Seq<char> {
    match s {
        Some(t) => t,
        None => fallback,
    }
}

/// The lines describing the selected item: title, link, and its downloads
/// and seeders; none when it has no `nyaa` extensions.
pub open spec fn selected_item_lines(item: NyaaItemView) -> Option<Seq<Seq<char>>> {
    if has_nyaa(item) {
        Some(seq![
            or_text(item.title, "<anon>"@),
            or_text(item.link, "<yo wth?>"@),
            "downloads: "@ + or_text(nyaa_value(item, "downloads"@), "<?>"@) + "; seeds: "@ + or_text(nyaa_value(item, "seeders"@), "<?>"@),
        ])
    } else {
        None
    }
}

impl FeedExtension {
    /// A copy of this extension.
    pub fn duplicate(&self) -> (r: FeedExtension)
        ensures
            r@ == self@,
    {
        let mut values: Vec<Option<String>> = Vec::new();
        let mut k: usize = 0;
        while k < self.values.len()
            invariant
                k <= self.values@.len(),
                values@.map_values(|v: Option<String>| opt_text(v)) == self.values@.take(k as int).map_values(|v: Option<String>| opt_text(v)),
            decreases self.values@.len() - k,
        {
            let ghost before = values@;
            let v = copy_opt_string(&self.values[k]);
            values.push(v);
            proof {
                assert(self.values@.take(k + 1) =~= self.values@.take(k as int).push(self.values@[k as int]));
                lemma_map_push(before, v, |v: Option<String>| opt_text(v));
                lemma_map_push(self.values@.take(k as int), self.values@[k as int], |v: Option<String>| opt_text(v));
            }
            k = k + 1;
        }
        proof {
            assert(self.values@.take(self.values@.len() as int) =~= self.values@);
        }
        FeedExtension { namespace: self.namespace.clone(), name: self.name.clone(), values }
    }
}

impl NyaaItem {
    /// A copy of this item.
    pub fn duplicate(&self) -> (r: NyaaItem)
        ensures
            r@ == self@,
    {
        let mut extensions: Vec<FeedExtension> = Vec::new();
        let mut k: usize = 0;
        while k < self.extensions.len()
            invariant
                k <= self.extensions@.len(),
                extensions@.map_values(|e: FeedExtension| e@) == self.extensions@.take(k as int).map_values(|e: FeedExtension| e@),
            decreases self.extensions@.len() - k,
        {
            let ghost before = extensions@;
            let e = self.extensions[k].duplicate();
            extensions.push(e);
            proof {
                assert(self.extensions@.take(k + 1) =~= self.extensions@.take(k as int).push(self.extensions@[k as int]));
                lemma_map_push(before, e, |e: FeedExtension| e@);
                lemma_map_push(self.extensions@.take(k as int), self.extensions@[k as int], |e: FeedExtension| e@);
            }
            k = k + 1;
        }
        proof {
            assert(self.extensions@.take(self.extensions@.len() as int) =~= self.extensions@);
        }
        NyaaItem { title: copy_opt_string(&self.title), link: copy_opt_string(&self.link), extensions }
    }

    /// The text of the first `nyaa:key` element of this item, if it has one.
    pub fn nyaa_value(&self, key: &str) -> (r: Option<String>)
        ensures
            opt_text(r) == nyaa_value(self@, key@),
    {
        let ns = String::from_str("nyaa");
        let name = String::from_str(key);
        let ghost exts = self@.extensions;
        let mut k: usize = 0;
        while k < self.extensions.len()
            invariant
                k <= self.extensions@.len(),
                exts == self@.extensions,
                ns@ == "nyaa"@,
                name@ == key@,
                find_nyaa_from(exts, key@, 0) == find_nyaa_from(exts, key@, k as int),
            decreases self.extensions@.len() - k,
        {
            let e = &self.extensions[k];
            if e.namespace == ns && e.name == name {
                if e.values.len() > 0 {
                    return copy_opt_string(&e.values[0]);
                }
                return None;
            }
            k = k + 1;
        }
        None
    }

    /// Whether this item has extensions in the `nyaa` namespace.
    pub fn has_nyaa(&self) -> (b: bool)
        ensures
            b == has_nyaa(self@),
    {
        let ns = String::from_str("nyaa");
        let mut k: usize = 0;
        while k < self.extensions.len()
            invariant
                k <= self.extensions@.len(),
                ns@ == "nyaa"@,
                forall|i: int| 0 <= i < k ==> #[trigger] self@.extensions[i].namespace != "nyaa"@,
            decreases self.extensions@.len() - k,
        {
            if self.extensions[k].namespace == ns {
                assert(self@.extensions[k as int].namespace == "nyaa"@);
                return true;
            }
            k = k + 1;
        }
        false
    }

    /// The table row shown for this item at index `idx`.
    pub fn table_row(&self, idx: usize) -> (r: Option<Vec<String>>)
        ensures
            match r {
                Some(v) => item_row(self@, idx as nat) == Some(texts(v@)),
                None => item_row(self@, idx as nat) is None,
            },
    {
        if !self.has_nyaa() {
            return None;
        }
        let title = match &self.title {
            Some(t) => t.clone(),
            None => return None,
        };
        let size = match self.nyaa_value("size") {
            Some(s) => s,
            None => return None,
        };
        let seeders = match self.nyaa_value("seeders") {
            Some(s) => s,
            None => return None,
        };
        let mut row: Vec<String> = Vec::new();
        row.push(usize_text(idx));
        row.push(title);
        row.push(size);
        row.push(seeders);
        proof {
            assert(texts(row@) =~= item_row(self@, idx as nat)->0);
        }
        Some(row)
    }

    /// The lines describing this item when it is selected.
    pub fn description_lines(&self) -> (r: Option<Vec<String>>)
        ensures
            match r {
                Some(v) => selected_item_lines(self@) == Some(texts(v@)),
                None => selected_item_lines(self@) is None,
            },
    {
        if !self.has_nyaa() {
            return None;
        }
        let title = match &self.title {
            Some(t) => t.clone(),
            None => String::from_str("<anon>"),
        };
        let link = match &self.link {
            Some(t) => t.clone(),
            None => String::from_str("<yo wth?>"),
        };
        let downloads = match self.nyaa_value("downloads") {
            Some(s) => s,
            None => String::from_str("<?>"),
        };
        let seeds = match self.nyaa_value("seeders") {
            Some(s) => s,
            None => String::from_str("<?>"),
        };
        let counts = String::from_str("downloads: ").concat(downloads.as_str()).concat("; seeds: ").concat(seeds.as_str());
        let mut lines: Vec<String> = Vec::new();
        lines.push(title);
        lines.push(link);
        lines.push(counts);
        proof {
            assert(texts(lines@) =~= selected_item_lines(self@)->0);
        }
        Some(lines)
    }
}

/// A copy of a list of items.
pub fn copy_items(items: &Vec<NyaaItem>) -> (r: Vec<NyaaItem>)
    ensures
        item_views(r@) == item_views(items@),
{
    let mut r: Vec<NyaaItem> = Vec::new();
    let mut k: usize = 0;
    while k < items.len()
        invariant
            k <= items@.len(),
            item_views(r@) == item_views(items@.take(k as int)),
        decreases items@.len() - k,
    {
        let ghost before = r@;
        let item = items[k].duplicate();
        r.push(item);
        proof {
            assert(items@.take(k + 1) =~= items@.take(k as int).push(items@[k as int]));
            lemma_map_push(before, item, |i: NyaaItem| i@);
            lemma_map_push(items@.take(k as int), items@[k as int], |i: NyaaItem| i@);
        }
        k = k + 1;
    }
    proof {
        assert(items@.take(items@.len() as int) =~= items@);
    }
    r
}

/// The table rows of a list of items, each item that has a row giving one,
/// numbered by its index in the list.
pub fn table_rows(items: &Vec<NyaaItem>) -> (r: Vec<Vec<String>>)
    ensures
        r@.map_values(|row: Vec<String>| texts(row@)) == item_rows(item_views(items@), items@.len()),
{
    let mut rows: Vec<Vec<String>> = Vec::new();
    let mut k: usize = 0;
    while k < items.len()
        invariant
            k <= items@.len(),
            rows@.map_values(|row: Vec<String>| texts(row@)) == item_rows(item_views(items@), k as nat),
        decreases items@.len() - k,
    {
        let row = items[k].table_row(k);
        match row {
            Some(v) => {
                rows.push(v);
            },
            None => {},
        }
        proof {
            assert(item_views(items@)[k as int] == items@[k as int]@);
            assert(rows@.map_values(|row: Vec<String>| texts(row@)) =~= item_rows(item_views(items@), (k + 1) as nat));
        }
        k = k + 1;
    }
    rows
}

impl NyaaChannel {
    /// A channel of the given items, with no item selected.
    pub fn new(items: Vec<NyaaItem>) -> (c: NyaaChannel)
        ensures
            c@.items == item_views(items@),
            c@.selected_item is None,
    {
        NyaaChannel { items, selected_item: None }
    }

    /// A copy of this channel.
    pub fn duplicate(&self) -> (c: NyaaChannel)
        ensures
            c@ == self@,
    {
        let selected_item = match &self.selected_item {
            Some(i) => Some(i.duplicate()),
            None => None,
        };
        NyaaChannel { items: copy_items(&self.items), selected_item }
    }
}

/// The items that `rss::Channel::read_from` finds in the bytes of a feed,
/// each converted to its title, link and extension values; none when the
/// bytes are not a feed it accepts.
pub uninterp spec fn rss_feed_items(bytes: Seq<u8>) -> Option<Seq<NyaaItemView>>;

#[verifier::external_type_specification]
#[verifier::external_body]
pub struct ExRssError(rss::Error);

/// Parses the bytes of an RSS feed with `rss::Channel::read_from` and
/// converts each item of the channel, field by field, to a `NyaaItem`: its
/// title, its link, and for each extension namespace and element name the
/// text values of the elements. Trusted: the result, or the failure, is the
/// one `rss_feed_items` names for the bytes.
#[verifier::external_body]
fn read_rss_items(bytes: &[u8]) -> (r: Result<Vec<NyaaItem>, rss::Error>)
    ensures
        match r {
            Ok(items) => rss_feed_items(bytes@) == Some(item_views(items@)),
            Err(_) => rss_feed_items(bytes@) is None,
        },
{
    let channel = rss::Channel::read_from(bytes)?;
    Ok(channel.items.iter().map(|item| NyaaItem {
        title: item.title().map(String::from),
        link: item.link().map(String::from),
        extensions: item.extensions().iter().flat_map(|(ns, names)| names.iter().map(move |(name, exts)| FeedExtension {
            namespace: ns.clone(),
            name: name.clone(),
            values: exts.iter().map(|e| e.value().map(String::from)).collect(),
        })).collect(),
    }).collect())
}

/// Why a fetched feed could not be used.
#[derive(Debug, Clone, Copy, PartialEq, Eq, Structural)]
pub enum FeedError {
    /// The bytes are not an RSS feed.
    Malformed,
}

/// Reads the channel of a fetched RSS feed.
pub fn parse_channel(bytes: &[u8]) -> (r: Result<NyaaChannel, FeedError>)
    ensures
        match r {
            Ok(c) => rss_feed_items(bytes@) == Some(c@.items) && c@.selected_item is None,
            Err(e) => rss_feed_items(bytes@) is None && e == FeedError::Malformed,
        },
{
    match read_rss_items(bytes) {
        Ok(items) => Ok(NyaaChannel::new(items)),
        Err(_) => Err(FeedError::Malformed),
    }
}

} // verus!
