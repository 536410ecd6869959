use vstd::prelude::*;
use crate::feed::{NyaaChannel, NyaaChannelView};
use crate::mode::Mode;
use crate::text::texts;

verus! {

/// A torrent of the download session, as the screens use it: its id in the
/// session, and the indices of the files selected for download, when only
/// some were.
pub struct TorrentEntry {
    pub id: usize,
    pub only_files: Option<Vec<usize>>,
}

/// The plain value of a torrent entry.
pub struct TorrentEntryView {
    pub id: usize,
    pub only_files: Option<Seq<usize>>,
}

impl View for TorrentEntry {
    type V = TorrentEntryView;

    open spec fn view(&self) -> TorrentEntryView {
        TorrentEntryView {
            id: self.id,
            only_files: match self.only_files {
                Some(v) => Some(v@),
                None => None,
            },
        }
    }
}

impl TorrentEntry {
    /// A copy of this entry.
    pub fn duplicate(&self) -> (r: TorrentEntry)
        ensures
            r@ == self@,
    {
        let only_files = match &self.only_files {
            Some(v) => {
                let mut w: Vec<usize> = Vec::new();
                let mut k: usize = 0;
                while k < v.len()
                    invariant
                        k <= v@.len(),
                        w@ == v@.take(k as int),
                    decreases v@.len() - k,
                {
                    w.push(v[k]);
                    k = k + 1;
                    proof {
                        assert(v@.take(k as int) =~= v@.take(k - 1).push(v@[k - 1]));
                    }
                }
                proof {
                    assert(v@.take(v@.len() as int) =~= v@);
                }
                Some(w)
            },
            None => None,
        };
        TorrentEntry { id: self.id, only_files }
    }
}

/// What the screens ask of the application.
pub enum Action {
    Quit,
    Enter(Mode),
    Search(String),
    SetChannel(NyaaChannel),
    SelectItem(usize),
    Download(String),
    AppendHandle(TorrentEntry),
    DeleteHandle([u8; 20], usize),
    Popup(String, String, Vec<String>),
    Play(String),
    NextVo,
    PrevVo,
}

/// The plain value of an action, with texts as character sequences.
pub enum ActionView {
    Quit,
    Enter(Mode),
    Search(Seq<char>),
    SetChannel(NyaaChannelView),
    SelectItem(usize),
    Download(Seq<char>),
    AppendHandle(TorrentEntryView),
    DeleteHandle([u8; 20], usize),
    Popup(Seq<char>, Seq<char>, Seq<Seq<char>>),
    Play(Seq<char>),
    NextVo,
    PrevVo,
}

impl View for Action {
    type V = ActionView;

    open spec fn view(&self) -> ActionView {
        match self {
            Action::Quit => ActionView::Quit,
            Action::Enter(m) => ActionView::Enter(*m),
            Action::Search(s) => ActionView::Search(s@),
            Action::SetChannel(c) => ActionView::SetChannel(c@),
            Action::SelectItem(i) => ActionView::SelectItem(*i),
            Action::Download(s) => ActionView::Download(s@),
            Action::AppendHandle(t) => ActionView::AppendHandle(t@),
            Action::DeleteHandle(id, i) => ActionView::DeleteHandle(*id, *i),
            Action::Popup(t, d, b) => ActionView::Popup(t@, d@, texts(b@)),
            Action::Play(s) => ActionView::Play(s@),
            Action::NextVo => ActionView::NextVo,
            Action::PrevVo => ActionView::PrevVo,
        }
    }
}

/// The plain values of a list of actions.
pub open spec fn action_views(actions: Seq<Action>) -> Seq<ActionView> {
    actions.map_values(|a: Action| a@)
}

impl Action {
    /// A copy of this action.
    pub fn duplicate(&self) -> (r: Action)
        ensures
            r@ == self@,
    {
        match self {
            Action::Quit => Action::Quit,
            Action::Enter(m) => Action::Enter(m.duplicate()),
            Action::Search(s) => Action::Search(s.clone()),
            Action::SetChannel(c) => Action::SetChannel(c.duplicate()),
            Action::SelectItem(i) => Action::SelectItem(*i),
            Action::Download(s) => Action::Download(s.clone()),
            Action::AppendHandle(t) => Action::AppendHandle(t.duplicate()),
            Action::DeleteHandle(id, i) => Action::DeleteHandle(*id, *i),
            Action::Popup(t, d, b) => Action::Popup(t.clone(), d.clone(), crate::text::copy_strings(b)),
            Action::Play(s) => Action::Play(s.clone()),
            Action::NextVo => Action::NextVo,
            Action::PrevVo => Action::PrevVo,
        }
    }
}

} // verus!
