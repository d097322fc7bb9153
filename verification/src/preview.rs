//! The preview fetcher's session side: what kind of preview an object gets,
//! JSON pretty-printing for text previews, the preview state the UI shows,
//! and the single-shot, cancel-on-reselect fetch decision.

use vstd::prelude::*;
use crate::action::Action;
use crate::data::{Entry, Location, PreviewKind, PreviewMsg, PreviewState};
use crate::session::App;
use crate::strings::{is_prefix, lower_of, lowercase, str_eq, str_starts_with};

verus! {

/// Text previews fetch at most this many leading bytes (512 KB).
pub const MAX_TEXT_BYTES: i64 = 512 * 1024;

/// Whether text parses as JSON; a function of the text alone.
pub uninterp spec fn json_parses(s: Seq<char>) -> bool;

/// The pretty-printed form of JSON text; a function of the text alone.
pub uninterp spec fn pretty_json_of(s: Seq<char>) -> Seq<char>;

/// Relies on serde_json's from_str::<Value> and to_string_pretty: whether
/// text parses, and the reformatted text, depend on the input alone.
/// to_string_pretty cannot fail on a parsed Value, whose map keys are always
/// strings.
#[verifier::external_body]
fn pretty_print_json(text: &str) -> (r: Option<String>)
    ensures
        r is Some <==> json_parses(text@),
        r matches Some(p) ==> p@ == pretty_json_of(text@),
{
    match serde_json::from_str::<serde_json::Value>(text) {
        Ok(v) => serde_json::to_string_pretty(&v).ok(),
        Err(_) => None,
    }
}

/// Pretty-print JSON text; anything that does not parse comes back as it
/// was.
pub fn try_pretty_json(text: &str) -> (r: String)
    ensures
        json_parses(text@) ==> r@ == pretty_json_of(text@),
        !json_parses(text@) ==> r@ == text@,
{
    match pretty_print_json(text) {
        Some(p) => p,
        None => text.to_owned(),
    }
}

/// The preview kind a (lowercased) content type names.
pub open spec fn content_kind_of(ct: Seq<char>) -> Option<PreviewKind> {
    if is_prefix("image/"@, ct) {
        Some(PreviewKind::Image)
    } else if is_prefix("video/"@, ct) {
        Some(PreviewKind::Video)
    } else if is_prefix("text/"@, ct) || ct == "application/json"@ || ct == "application/xml"@
        || ct == "application/javascript"@ || ct == "application/x-yaml"@ || ct
        == "application/toml"@ || ct == "application/x-sh"@ {
        Some(PreviewKind::Text)
    } else {
        None
    }
}

/// How an object previews, judged by its content type (case-insensitive).
pub fn content_type_to_kind(content_type: &str) -> (r: Option<PreviewKind>)
    ensures
        r == content_kind_of(lower_of(content_type@)),
{
    let ct = lowercase(content_type);
    let c = ct.as_str();
    if str_starts_with(c, "image/") {
        Some(PreviewKind::Image)
    } else if str_starts_with(c, "video/") {
        Some(PreviewKind::Video)
    } else if str_starts_with(c, "text/") || str_eq(c, "application/json") || str_eq(
        c,
        "application/xml",
    ) || str_eq(c, "application/javascript") || str_eq(c, "application/x-yaml") || str_eq(
        c,
        "application/toml",
    ) || str_eq(c, "application/x-sh") {
        Some(PreviewKind::Text)
    } else {
        None
    }
}

/// Everything after the last dot; the whole text when it holds no dot, empty
/// when it ends in one.
pub open spec fn ext_of(s: Seq<char>) -> Seq<char>
    decreases s.len(),
{
    if s.len() == 0 {
        Seq::empty()
    } else if s.last() == '.' {
        Seq::empty()
    } else {
        ext_of(s.drop_last()).push(s.last())
    }
}

/// The suffix of a key after its last dot.
pub fn extension_of(key: &str) -> (r: String)
    ensures
        r@ == ext_of(key@),
{
    let len = key.unicode_len();
    let mut pos: usize = len;
    proof {
        assert(key@.take(len as int) =~= key@);
        assert(key@.subrange(len as int, len as int) =~= Seq::<char>::empty());
        assert(ext_of(key@) =~= ext_of(key@.take(len as int)) + key@.subrange(
            len as int,
            len as int,
        ));
    }
    while pos > 0 && key.get_char(pos - 1) != '.'
        invariant
            pos <= len,
            len == key@.len(),
            ext_of(key@) == ext_of(key@.take(pos as int)) + key@.subrange(pos as int, len as int),
        decreases pos,
    {
        proof {
            assert(key@.take(pos as int).drop_last() =~= key@.take(pos - 1));
            assert(key@.take(pos as int).last() == key@[pos - 1]);
            assert(ext_of(key@.take(pos - 1)).push(key@[pos - 1]) + key@.subrange(
                pos as int,
                len as int,
            ) =~= ext_of(key@.take(pos - 1)) + key@.subrange(pos - 1, len as int));
        }
        pos = pos - 1;
    }
    proof {
        if pos > 0 {
            assert(key@.take(pos as int).last() == key@[pos - 1]);
            assert(ext_of(key@.take(pos as int)) =~= Seq::<char>::empty());
        } else {
            assert(key@.take(0int).len() == 0);
        }
        assert(Seq::<char>::empty() + key@.subrange(pos as int, len as int) =~= key@.subrange(
            pos as int,
            len as int,
        ));
    }
    let tail = key.substring_char(pos, len);
    tail.to_owned()
}

/// The preview kind a (lowercased) file extension names.
pub open spec fn ext_kind_of(e: Seq<char>) -> Option<PreviewKind> {
    if e == "jpg"@ || e == "jpeg"@ || e == "png"@ || e == "gif"@ || e == "webp"@ || e == "bmp"@ || e == "ico"@ || e == "tiff"@ || e == "tif"@ || e == "svg"@ {
        Some(PreviewKind::Image)
    } else if e == "mp4"@ || e == "mkv"@ || e == "avi"@ || e == "mov"@ || e == "webm"@ || e == "flv"@ || e == "wmv"@ || e == "m4v"@ || e == "3gp"@ {
        Some(PreviewKind::Video)
    } else if e == "txt"@ || e == "md"@ || e == "markdown"@ || e == "json"@ || e == "yaml"@ || e == "yml"@ || e == "toml"@ || e == "xml"@ || e == "csv"@ || e == "tsv"@ || e == "log"@ || e == "ini"@ || e == "cfg"@ || e == "conf"@ || e == "env"@ || e == "sh"@ || e == "bash"@ || e == "zsh"@ || e == "fish"@ || e == "py"@ || e == "rs"@ || e == "go"@ || e == "js"@ || e == "ts"@ || e == "jsx"@ || e == "tsx"@ || e == "html"@ || e == "htm"@ || e == "css"@ || e == "scss"@ || e == "less"@ || e == "sql"@ || e == "rb"@ || e == "lua"@ || e == "c"@ || e == "cpp"@ || e == "h"@ || e == "hpp"@ || e == "java"@ || e == "kt"@ || e == "swift"@ || e == "r"@ || e == "R"@ || e == "pl"@ || e == "pm"@ || e == "php"@ || e == "ex"@ || e == "exs"@ || e == "erl"@ || e == "hs"@ || e == "ml"@ || e == "tf"@ || e == "hcl"@ || e == "dockerfile"@ || e == "makefile"@ || e == "cmake"@ || e == "gitignore"@ || e == "dockerignore"@ || e == "editorconfig"@ || e == "properties"@ {
        Some(PreviewKind::Text)
    } else {
        None
    }
}

/// How an object previews, judged by its key's extension
/// (case-insensitive).
pub fn extension_to_kind(key: &str) -> (r: Option<PreviewKind>)
    ensures
        r == ext_kind_of(lower_of(ext_of(key@))),
{
    let raw = extension_of(key);
    let low = lowercase(raw.as_str());
    let e = low.as_str();
    if str_eq(e, "jpg") || str_eq(e, "jpeg") || str_eq(e, "png") || str_eq(e, "gif") || str_eq(e, "webp") || str_eq(e, "bmp") || str_eq(e, "ico") || str_eq(e, "tiff") || str_eq(e, "tif") || str_eq(e, "svg") {
        Some(PreviewKind::Image)
    } else if str_eq(e, "mp4") || str_eq(e, "mkv") || str_eq(e, "avi") || str_eq(e, "mov") || str_eq(e, "webm") || str_eq(e, "flv") || str_eq(e, "wmv") || str_eq(e, "m4v") || str_eq(e, "3gp") {
        Some(PreviewKind::Video)
    } else if str_eq(e, "txt") || str_eq(e, "md") || str_eq(e, "markdown") || str_eq(e, "json") || str_eq(e, "yaml") || str_eq(e, "yml") || str_eq(e, "toml") || str_eq(e, "xml") || str_eq(e, "csv") || str_eq(e, "tsv") || str_eq(e, "log") || str_eq(e, "ini") || str_eq(e, "cfg") || str_eq(e, "conf") || str_eq(e, "env") || str_eq(e, "sh") || str_eq(e, "bash") || str_eq(e, "zsh") || str_eq(e, "fish") || str_eq(e, "py") || str_eq(e, "rs") || str_eq(e, "go") || str_eq(e, "js") || str_eq(e, "ts") || str_eq(e, "jsx") || str_eq(e, "tsx") || str_eq(e, "html") || str_eq(e, "htm") || str_eq(e, "css") || str_eq(e, "scss") || str_eq(e, "less") || str_eq(e, "sql") || str_eq(e, "rb") || str_eq(e, "lua") || str_eq(e, "c") || str_eq(e, "cpp") || str_eq(e, "h") || str_eq(e, "hpp") || str_eq(e, "java") || str_eq(e, "kt") || str_eq(e, "swift") || str_eq(e, "r") || str_eq(e, "R") || str_eq(e, "pl") || str_eq(e, "pm") || str_eq(e, "php") || str_eq(e, "ex") || str_eq(e, "exs") || str_eq(e, "erl") || str_eq(e, "hs") || str_eq(e, "ml") || str_eq(e, "tf") || str_eq(e, "hcl") || str_eq(e, "dockerfile") || str_eq(e, "makefile") || str_eq(e, "cmake") || str_eq(e, "gitignore") || str_eq(e, "dockerignore") || str_eq(e, "editorconfig") || str_eq(e, "properties") {
        Some(PreviewKind::Text)
    } else {
        None
    }
}

/// How many lines a text shows: newline-separated, with an optional final
/// newline.
pub open spec fn line_count_of(s: Seq<char>) -> int {
    if s.len() == 0 {
        0
    } else {
        newline_count(s) + (if s.last() == '\n' {
            0int
        } else {
            1int
        })
    }
}

/// How many newline characters a text holds.
pub open spec fn newline_count(s: Seq<char>) -> int
    decreases s.len(),
{
    if s.len() == 0 {
        0
    } else {
        newline_count(s.drop_last()) + (if s.last() == '\n' {
            1int
        } else {
            0int
        })
    }
}

proof fn lemma_newline_count_le(s: Seq<char>)
    ensures
        0 <= newline_count(s) <= s.len(),
    decreases s.len(),
{
    if s.len() > 0 {
        lemma_newline_count_le(s.drop_last());
    }
}

/// Count the lines of a text.
pub fn count_lines(s: &str) -> (r: usize)
    ensures
        r == line_count_of(s@),
{
    let len = s.unicode_len();
    if len == 0 {
        return 0;
    }
    let mut newlines: usize = 0;
    let mut i: usize = 0;
    proof {
        assert(newline_count(s@.take(0int)) == 0);
    }
    while i < len
        invariant
            i <= len,
            len == s@.len(),
            newlines == newline_count(s@.take(i as int)),
            newlines <= i,
        decreases len - i,
    {
        let c = s.get_char(i);
        proof {
            assert(s@.take(i + 1).drop_last() =~= s@.take(i as int));
            assert(s@.take(i + 1).last() == s@[i as int]);
        }
        if c == '\n' {
            newlines = newlines + 1;
        }
        i = i + 1;
    }
    proof {
        assert(s@.take(len as int) =~= s@);
    }
    let last = s.get_char(len - 1);
    if last == '\n' {
        newlines
    } else {
        proof {
            assert(s@.drop_last() =~= s@.take(len - 1));
            lemma_newline_count_le(s@.take(len - 1));
            assert(newline_count(s@) == newline_count(s@.take(len - 1)));
        }
        newlines + 1
    }
}

impl PreviewState {
    /// An idle preview: nothing shown, nothing loading, no task.
    pub fn new() -> (r: Self)
        ensures
            r.current_key is None,
            r.text_content is None,
            !r.loading,
            r.error is None,
            r.scroll_offset == 0,
            r.line_count == 0,
            !r.live,
    {
        PreviewState {
            current_key: None,
            text_content: None,
            loading: false,
            error: None,
            scroll_offset: 0,
            line_count: 0,
            live: false,
        }
    }

    /// Drop everything shown and kill the background task.
    pub fn clear(&mut self)
        ensures
            final(self).current_key is None,
            final(self).text_content is None,
            !final(self).loading,
            final(self).error is None,
            final(self).scroll_offset == 0,
            final(self).line_count == 0,
            !final(self).live,
    {
        self.current_key = None;
        self.text_content = None;
        self.loading = false;
        self.error = None;
        self.scroll_offset = 0;
        self.line_count = 0;
        self.live = false;
    }

    /// Scroll the text preview up by this many lines, stopping at the top.
    pub fn scroll_up(&mut self, lines: usize)
        ensures
            final(self).scroll_offset == (if old(self).scroll_offset >= lines {
                old(self).scroll_offset - lines
            } else {
                0int
            }),
            *final(self) == (PreviewState { scroll_offset: final(self).scroll_offset, ..*old(self) }),
    {
        if self.scroll_offset >= lines {
            self.scroll_offset = self.scroll_offset - lines;
        } else {
            self.scroll_offset = 0;
        }
    }

    /// Scroll the text preview down by this many lines, stopping at the last
    /// line.
    pub fn scroll_down(&mut self, lines: usize)
        ensures
            old(self).line_count == 0 ==> final(self).scroll_offset == old(self).scroll_offset,
            old(self).line_count > 0 ==> final(self).scroll_offset == (if old(self).scroll_offset
                + lines <= old(self).line_count - 1 {
                old(self).scroll_offset + lines
            } else {
                old(self).line_count - 1
            }),
            *final(self) == (PreviewState { scroll_offset: final(self).scroll_offset, ..*old(self) }),
    {
        if self.line_count > 0 {
            let cap = self.line_count - 1;
            if self.scroll_offset < cap && lines < cap - self.scroll_offset {
                self.scroll_offset = self.scroll_offset + lines;
            } else {
                self.scroll_offset = cap;
            }
        }
    }
}

/// One preview message applied to the state.
pub open spec fn preview_step(p: PreviewState, m: PreviewMsg, is_json: bool, q: PreviewState) -> bool {
    match m {
        PreviewMsg::TextReady(text) => {
            &&& !q.loading
            &&& q.scroll_offset == 0
            &&& q.text_content matches Some(t) && (if is_json {
                (json_parses(text@) ==> t@ == pretty_json_of(text@)) && (!json_parses(text@) ==> t@
                    == text@)
            } else {
                t@ == text@
            })
            &&& q.line_count == line_count_of(q.text_content.unwrap()@)
            &&& q.error == p.error
            &&& q.current_key == p.current_key
            &&& q.live == p.live
        },
        PreviewMsg::Error(e) => q == (PreviewState { loading: false, error: Some(e), ..p }),
    }
}

/// The state after a run of preview messages, applied in arrival order.
pub open spec fn preview_folds(
    p0: PreviewState,
    msgs: Seq<PreviewMsg>,
    is_json: bool,
    p1: PreviewState,
) -> bool
    decreases msgs.len(),
{
    if msgs.len() == 0 {
        p1 == p0
    } else {
        exists|mid: PreviewState|
            #[trigger] preview_step(p0, msgs[0], is_json, mid) && preview_folds(
                mid,
                msgs.drop_first(),
                is_json,
                p1,
            )
    }
}

/// One more applied message extends a fold.
proof fn lemma_preview_folds_extend(
    p0: PreviewState,
    msgs: Seq<PreviewMsg>,
    i: int,
    is_json: bool,
    p: PreviewState,
    q: PreviewState,
)
    requires
        0 <= i < msgs.len(),
        preview_folds(p0, msgs.take(i), is_json, p),
        preview_step(p, msgs[i], is_json, q),
    ensures
        preview_folds(p0, msgs.take(i + 1), is_json, q),
    decreases i,
{
    if i == 0 {
        assert(msgs.take(1int)[0] == msgs[0]);
        assert(msgs.take(1int).drop_first() =~= msgs.take(0int));
        assert(p == p0);
        assert(preview_step(p0, msgs.take(1int)[0], is_json, q));
        assert(preview_folds(q, msgs.take(1int).drop_first(), is_json, q));
    } else {
        let t = msgs.drop_first();
        assert(msgs.take(i)[0] == msgs[0]);
        let mid0 = choose|mid: PreviewState|
            #[trigger] preview_step(p0, msgs.take(i)[0], is_json, mid) && preview_folds(
                mid,
                msgs.take(i).drop_first(),
                is_json,
                p,
            );
        assert(msgs.take(i).drop_first() =~= t.take(i - 1));
        assert(t[i - 1] == msgs[i]);
        lemma_preview_folds_extend(mid0, t, i - 1, is_json, p, q);
        assert(msgs.take(i + 1)[0] == msgs[0]);
        assert(msgs.take(i + 1).drop_first() =~= t.take(i));
        assert(preview_step(p0, msgs.take(i + 1)[0], is_json, mid0));
        assert(preview_folds(mid0, msgs.take(i + 1).drop_first(), is_json, q));
    }
}

/// The selection previews when it is a plain object inside a bucket.
pub open spec fn previewable(a: App) -> bool {
    &&& a.browser_selected matches Some(idx) && idx < a.entries@.len() && (
    a.entries@[idx as int] matches Entry::Object(o) && !o.is_dir)
    &&& a.location is ObjectList
}

/// The preview kind of an object: its content type decides when known, else
/// its key's extension.
pub open spec fn chosen_kind(ct: Option<String>, key: Seq<char>) -> Option<PreviewKind> {
    match ct {
        Some(c) => match content_kind_of(lower_of(c@)) {
            Some(k) => Some(k),
            None => ext_kind_of(lower_of(ext_of(key))),
        },
        None => ext_kind_of(lower_of(ext_of(key))),
    }
}

/// The leading arguments an external player gets (the presigned URL is
/// appended after presigning).
pub open spec fn media_args_ok(kind: PreviewKind, key: Seq<char>, args: Seq<String>) -> bool {
    &&& args.len() == 8
    &&& args[0]@ == "-v"@
    &&& args[1]@ == "warning"@
    &&& args[2]@ == "-autoexit"@
    &&& args[3]@ == "-alwaysontop"@
    &&& args[4]@ == "-window_title"@
    &&& args[5]@ == key
    &&& (kind is Image ==> args[6]@ == "-loop"@ && args[7]@ == "0"@)
    &&& (kind is Video ==> args[6]@ == "-showmode"@ && args[7]@ == "video"@)
}

impl App {
    /// The remote, bucket, key, known content type and size of the selected
    /// plain object, if the selection is one.
    pub fn selected_file_info(&self) -> (r: Option<(String, String, String, Option<String>, i64)>)
        ensures
            r is Some <==> previewable(*self),
            r matches Some(info) ==> {
                &&& self.browser_selected matches Some(idx) && idx < self.entries@.len() && (
                self.entries@[idx as int] matches Entry::Object(o) && info.2 == o.key && info.4
                    == o.size)
                &&& self.location matches Location::ObjectList { remote, bucket, prefix }
                    && info.0 == remote && info.1 == bucket
                &&& info.3 == (match self.metadata {
                    Some(m) => m.content_type,
                    None => None::<String>,
                })
            },
    {
        let idx = match self.browser_selected {
            Some(idx) => idx,
            None => {
                return None;
            },
        };
        if idx >= self.entries.len() {
            return None;
        }
        let (remote, bucket) = match &self.location {
            Location::ObjectList { remote, bucket, prefix: _ } => (remote.clone(), bucket.clone()),
            _ => {
                return None;
            },
        };
        match &self.entries[idx] {
            Entry::Object(o) => {
                if o.is_dir {
                    return None;
                }
                let ct = match &self.metadata {
                    Some(m) => crate::data::clone_opt_string(&m.content_type),
                    None => None,
                };
                Some((remote, bucket, o.key.clone(), ct, o.size))
            },
            Entry::Bucket(_) => None,
        }
    }

    /// Ask for a preview of the selected object: a bounded text fetch for
    /// text, a presign-and-play for media.  Any prior preview task dies
    /// first; unsupported or unselected rows only leave a status note.
    #[verifier::rlimit(60)]
    pub fn request_preview(&mut self) -> (act: Option<Action>)
        ensures
            !previewable(*old(self)) ==> {
                &&& act is None
                &&& final(self).status_message matches Some(m) && m@
                    == "No file selected for preview"@
                &&& *final(self) == (App {
                    status_message: final(self).status_message,
                    ..*old(self)
                })
            },
            previewable(*old(self)) ==> {
                let idx = old(self).browser_selected.unwrap();
                let o = old(self).entries@[idx as int]->Object_0;
                let ct = (match old(self).metadata {
                    Some(m) => m.content_type,
                    None => None::<String>,
                });
                match chosen_kind(ct, o.key@) {
                    None => {
                        &&& act is None
                        &&& final(self).status_message matches Some(m) && m@
                            == "Unsupported file type for preview"@
                        &&& *final(self) == (App {
                            status_message: final(self).status_message,
                            ..*old(self)
                        })
                    },
                    Some(kind) => {
                        let remote = old(self).location->ObjectList_remote;
                        if !crate::session::contains_string(old(self).connected@, remote@) {
                            &&& act is None
                            &&& final(self).preview.current_key matches Some(k) && k == o.key
                            &&& !final(self).preview.live
                            &&& !final(self).preview.loading
                            &&& *final(self) == (App { preview: final(self).preview, ..*old(self) })
                        } else {
                            &&& final(self).preview.current_key matches Some(k) && k == o.key
                            &&& final(self).preview.live
                            &&& final(self).preview.text_content is None
                            &&& final(self).preview.error is None
                            &&& (kind is Text ==> {
                                &&& final(self).preview.loading
                                &&& final(self).status_message matches Some(m) && m@
                                    == "Loading text preview..."@
                                &&& act matches Some(a) && a matches Action::FetchTextPreview {
                                    remote: r,
                                    bucket: b,
                                    key: k,
                                    length: l,
                                } && r@ == remote@ && b@ == old(self).location->ObjectList_bucket@ && k == o.key && l == (if o.size
                                    < MAX_TEXT_BYTES {
                                    o.size
                                } else {
                                    MAX_TEXT_BYTES
                                }) as u64
                            })
                            &&& (kind is Image || kind is Video ==> {
                                &&& !final(self).preview.loading
                                &&& (kind is Image ==> (final(self).status_message matches Some(m)
                                    && m@ == "Opening image in ffplay..."@))
                                &&& (kind is Video ==> (final(self).status_message matches Some(m)
                                    && m@ == "Opening video in ffplay..."@))
                                &&& act matches Some(a) && a matches Action::PlayMedia {
                                    remote: r,
                                    bucket: b,
                                    key: k,
                                    args,
                                } && r@ == remote@ && b@ == old(self).location->ObjectList_bucket@ && k == o.key && media_args_ok(
                                    kind,
                                    o.key@,
                                    args@,
                                )
                            })
                            &&& *final(self) == (App {
                                preview: final(self).preview,
                                status_message: final(self).status_message,
                                ..*old(self)
                            })
                        }
                    },
                }
            },
    {
        let info = match self.selected_file_info() {
            Some(info) => info,
            None => {
                self.status_message = Some("No file selected for preview".to_owned());
                return None;
            },
        };
        let (remote, bucket, key, content_type, size) = info;

        let kind_from_ct = match &content_type {
            Some(c) => content_type_to_kind(c.as_str()),
            None => None,
        };
        let kind = match kind_from_ct {
            Some(k) => Some(k),
            None => extension_to_kind(key.as_str()),
        };
        let kind = match kind {
            Some(k) => k,
            None => {
                self.status_message = Some("Unsupported file type for preview".to_owned());
                return None;
            },
        };

        self.preview.clear();
        self.preview.current_key = Some(key.clone());

        if !self.has_client(remote.as_str()) {
            return None;
        }

        match kind {
            PreviewKind::Text => {
                self.preview.loading = true;
                self.status_message = Some("Loading text preview...".to_owned());
                let capped: i64 = if size < MAX_TEXT_BYTES {
                    size
                } else {
                    MAX_TEXT_BYTES
                };
                #[verifier::truncate]
                let length: u64 = capped as u64;
                self.preview.live = true;
                Some(Action::FetchTextPreview { remote, bucket, key, length })
            },
            PreviewKind::Image | PreviewKind::Video => {
                if kind == PreviewKind::Image {
                    self.status_message = Some("Opening image in ffplay...".to_owned());
                } else {
                    self.status_message = Some("Opening video in ffplay...".to_owned());
                }
                let mut args: Vec<String> = Vec::new();
                args.push("-v".to_owned());
                args.push("warning".to_owned());
                args.push("-autoexit".to_owned());
                args.push("-alwaysontop".to_owned());
                args.push("-window_title".to_owned());
                args.push(key.clone());
                if kind == PreviewKind::Image {
                    args.push("-loop".to_owned());
                    args.push("0".to_owned());
                } else {
                    args.push("-showmode".to_owned());
                    args.push("video".to_owned());
                }
                self.preview.live = true;
                Some(Action::PlayMedia { remote, bucket, key, args })
            },
        }
    }

    /// Apply the messages drained from the preview channel this tick, in
    /// arrival order.  Text lands pretty-printed when the previewed key is a
    /// JSON file; an error message is surfaced in the preview pane.
    #[verifier::loop_isolation(false)]
    #[verifier::rlimit(60)]
    pub fn drain_preview(&mut self, msgs: Vec<PreviewMsg>)
        ensures
            !old(self).preview.live ==> *final(self) == *old(self),
            old(self).preview.live ==> {
                let is_json = (match old(self).preview.current_key {
                    Some(k) => lower_of(ext_of(k@)) == "json"@,
                    None => false,
                });
                &&& preview_folds(old(self).preview, msgs@, is_json, final(self).preview)
                &&& *final(self) == (App { preview: final(self).preview, ..*old(self) })
            },
    {
        let is_json = match &self.preview.current_key {
            Some(k) => {
                let ext = extension_of(k.as_str());
                let low = lowercase(ext.as_str());
                str_eq(low.as_str(), "json")
            },
            None => false,
        };
        if !self.preview.live {
            return ;
        }
        let ghost all = msgs@;
        let ghost is_json_spec = (match old(self).preview.current_key {
            Some(k) => lower_of(ext_of(k@)) == "json"@,
            None => false,
        });
        let mut msgs = msgs;
        let mut i: usize = 0;
        let n = msgs.len();
        proof {
            assert(all.take(0int).len() == 0);
        }
        while i < n
            invariant
                i <= n,
                n == all.len(),
                msgs@ == all.skip(i as int),
                preview_folds(old(self).preview, all.take(i as int), is_json_spec, self.preview),
                *self == (App { preview: self.preview, ..*old(self) }),
            decreases n - i,
        {
            proof {
                assert(all.skip(i as int)[0] == all[i as int]);
                assert(all.skip(i as int).remove(0int) =~= all.skip(i + 1));
            }
            let ghost pre = self.preview;
            let msg = msgs.remove(0);
            match msg {
                PreviewMsg::TextReady(text) => {
                    self.preview.loading = false;
                    let shown = if is_json {
                        try_pretty_json(text.as_str())
                    } else {
                        text
                    };
                    self.preview.line_count = count_lines(shown.as_str());
                    self.preview.scroll_offset = 0;
                    self.preview.text_content = Some(shown);
                    proof {
                        assert(preview_step(pre, all[i as int], is_json_spec, self.preview));
                        lemma_preview_folds_extend(
                            old(self).preview,
                            all,
                            i as int,
                            is_json_spec,
                            pre,
                            self.preview,
                        );
                    }
                },
                PreviewMsg::Error(e) => {
                    self.preview.loading = false;
                    self.preview.error = Some(e);
                    proof {
                        assert(preview_step(pre, all[i as int], is_json_spec, self.preview));
                        lemma_preview_folds_extend(
                            old(self).preview,
                            all,
                            i as int,
                            is_json_spec,
                            pre,
                            self.preview,
                        );
                    }
                },
            }
            i = i + 1;
        }
        proof {
            assert(all.take(n as int) =~= all);
        }
    }
}


} // verus!
