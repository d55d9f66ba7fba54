//! Prompt files of a stage, normalized and identified by their content.
use vstd::prelude::*;
use vstd::string::*;
use vstd::utf8::*;

use crate::contracts::{ErrorCode, VcError, VcErrorView, VcResult};
use crate::hash::{blake3_hex, content_hash};
use crate::paths::{below, join_path};
use crate::text::{chars_of, join_with, joined_with, same_text, text_views};

verus! {

#[derive(Debug, Clone, Copy, PartialEq, Eq, Structural)]
pub enum PromptStage {
    Split,
    Correct,
    Translate,
}

impl PromptStage {
    pub open spec fn text(self) -> Seq<char> {
        match self {
            PromptStage::Split => "split"@,
            PromptStage::Correct => "correct"@,
            PromptStage::Translate => "translate"@,
        }
    }

    pub fn as_str(self) -> (name: &'static str)
        ensures
            name@ == self.text(),
    {
        match self {
            PromptStage::Split => "split",
            PromptStage::Correct => "correct",
            PromptStage::Translate => "translate",
        }
    }
}

/// `a` comes before `b` in the order of character sequences.
pub open spec fn before(a: Seq<char>, b: Seq<char>) -> bool
    decreases a.len(),
{
    if b.len() == 0 {
        false
    } else if a.len() == 0 {
        true
    } else if a[0] != b[0] {
        a[0] < b[0]
    } else {
        before(a.drop_first(), b.drop_first())
    }
}

proof fn lemma_before_is_total(a: Seq<char>, b: Seq<char>)
    ensures
        before(a, b) || before(b, a) || a == b,
        !(before(a, b) && before(b, a)),
        before(a, b) ==> a != b,
    decreases a.len(),
{
    if a.len() > 0 && b.len() > 0 && a[0] == b[0] {
        lemma_before_is_total(a.drop_first(), b.drop_first());
        if a.drop_first() == b.drop_first() {
            assert(a =~= seq![a[0]] + a.drop_first());
            assert(b =~= seq![b[0]] + b.drop_first());
        }
    } else if a.len() == 0 && b.len() == 0 {
        assert(a =~= b);
    }
}

proof fn lemma_before_is_transitive(a: Seq<char>, b: Seq<char>, c: Seq<char>)
    requires
        before(a, b),
        before(b, c),
    ensures
        before(a, c),
    decreases a.len(),
{
    if a.len() > 0 && a[0] == b[0] && b[0] == c[0] {
        lemma_before_is_transitive(a.drop_first(), b.drop_first(), c.drop_first());
    }
}

fn text_before(a: &str, b: &str) -> (answer: bool)
    ensures
        answer == before(a@, b@),
{
    let x = chars_of(a);
    let y = chars_of(b);
    let mut i: usize = 0;
    assert(x@.skip(0) =~= x@);
    assert(y@.skip(0) =~= y@);
    while i < x.len() && i < y.len() && x[i] == y[i]
        invariant
            i <= x.len(),
            i <= y.len(),
            before(x@, y@) == before(x@.skip(i as int), y@.skip(i as int)),
        decreases x.len() - i,
    {
        i += 1;
        assert(x@.skip(i as int) =~= x@.skip(i - 1).drop_first());
        assert(y@.skip(i as int) =~= y@.skip(i - 1).drop_first());
    }
    if i == y.len() {
        false
    } else if i == x.len() {
        true
    } else {
        x[i] < y[i]
    }
}

/// Files by name, in the order of their names.
#[derive(Debug, PartialEq, Eq)]
pub struct PromptFiles {
    entries: Vec<(String, String)>,
}

/// Names with contents.
pub open spec fn entry_views(entries: Seq<(String, String)>) -> Seq<(Seq<char>, Seq<char>)> {
    Seq::new(entries.len(), |i: int| (entries[i].0@, entries[i].1@))
}

impl View for PromptFiles {
    type V = Seq<(Seq<char>, Seq<char>)>;

    closed spec fn view(&self) -> Seq<(Seq<char>, Seq<char>)> {
        entry_views(self.entries@)
    }
}

/// Every name comes before all names behind it, so none occurs twice.
pub open spec fn in_name_order(files: Seq<(Seq<char>, Seq<char>)>) -> bool {
    forall|i: int, j: int|
        0 <= i < j < files.len() ==> before((#[trigger] files[i]).0, (#[trigger] files[j]).0)
}

/// The files with one more, or with another content under its name.
pub open spec fn with_file(
    files: Seq<(Seq<char>, Seq<char>)>,
    name: Seq<char>,
    content: Seq<char>,
) -> Seq<(Seq<char>, Seq<char>)>
    decreases files.len(),
{
    if files.len() == 0 {
        seq![(name, content)]
    } else if files[0].0 == name {
        seq![(name, content)] + files.drop_first()
    } else if before(name, files[0].0) {
        seq![(name, content)] + files
    } else {
        seq![files[0]] + with_file(files.drop_first(), name, content)
    }
}

/// The content of the first file named `name`, from `from` on.
pub open spec fn content_of(
    files: Seq<(Seq<char>, Seq<char>)>,
    name: Seq<char>,
    from: int,
) -> Option<Seq<char>>
    decreases files.len() - from,
{
    if from < 0 || from >= files.len() {
        None
    } else if files[from].0 == name {
        Some(files[from].1)
    } else {
        content_of(files, name, from + 1)
    }
}

pub open spec fn contents(files: Seq<(Seq<char>, Seq<char>)>) -> Seq<Seq<char>> {
    Seq::new(files.len(), |i: int| files[i].1)
}

impl Clone for PromptFiles {
    fn clone(&self) -> (copy: Self)
        ensures
            copy@ == self@,
    {
        let mut entries: Vec<(String, String)> = Vec::new();
        let mut i: usize = 0;
        while i < self.entries.len()
            invariant
                i <= self.entries.len(),
                entries@ == self.entries@.take(i as int),
            decreases self.entries.len() - i,
        {
            entries.push((self.entries[i].0.clone(), self.entries[i].1.clone()));
            i += 1;
            assert(entries@ =~= self.entries@.take(i as int));
        }
        assert(entries@ =~= self.entries@);
        PromptFiles { entries }
    }
}

impl PromptFiles {
    pub fn new() -> (files: Self)
        ensures
            files@ == Seq::<(Seq<char>, Seq<char>)>::empty(),
    {
        let files = PromptFiles { entries: Vec::new() };
        assert(files@ =~= seq![]);
        files
    }

    pub fn is_empty(&self) -> (answer: bool)
        ensures
            answer == (self@.len() == 0),
    {
        self.entries.len() == 0
    }

    /// Add a file, or replace the content under its name.
    pub fn insert(&mut self, name: &str, content: &str)
        ensures
            final(self)@ == with_file(old(self)@, name@, content@),
    {
        let ghost files = self@;
        let mut i: usize = 0;
        assert(files.skip(0) =~= files);
        assert(files.take(0) =~= seq![]);
        while i < self.entries.len()
            invariant
                i <= self.entries.len(),
                files == self@,
                self@ == old(self)@,
                with_file(files, name@, content@) =~= files.take(i as int) + with_file(
                    files.skip(i as int),
                    name@,
                    content@,
                ),
            decreases self.entries.len() - i,
        {
            assert(files.skip(i as int)[0] == files[i as int]);
            if same_text(self.entries[i].0.as_str(), name) {
                self.entries.set(i, (name.to_owned(), content.to_owned()));
                assert(self@ =~= files.take(i as int) + (seq![(name@, content@)] + files.skip(
                    i as int,
                ).drop_first()));
                return;
            }
            if text_before(name, self.entries[i].0.as_str()) {
                self.entries.insert(i, (name.to_owned(), content.to_owned()));
                assert(self@ =~= files.take(i as int) + (seq![(name@, content@)] + files.skip(
                    i as int,
                )));
                return;
            }
            i += 1;
            assert(files.skip(i as int) =~= files.skip(i - 1).drop_first());
            assert(files.take(i as int) + with_file(files.skip(i as int), name@, content@)
                =~= files.take(i - 1) + (seq![files[i - 1]] + with_file(
                files.skip(i as int),
                name@,
                content@,
            )));
        }
        assert(files.skip(i as int) =~= seq![]);
        self.entries.push((name.to_owned(), content.to_owned()));
        assert(self@ =~= files.take(i as int) + seq![(name@, content@)]);
    }

    /// The content under a name.
    pub fn get(&self, name: &str) -> (content: Option<String>)
        ensures
            match content {
                Some(content) => content_of(self@, name@, 0) == Some(content@),
                None => content_of(self@, name@, 0) is None,
            },
    {
        let mut i: usize = 0;
        while i < self.entries.len()
            invariant
                i <= self.entries.len(),
                content_of(self@, name@, 0) == content_of(self@, name@, i as int),
            decreases self.entries.len() - i,
        {
            if same_text(self.entries[i].0.as_str(), name) {
                return Some(self.entries[i].1.clone());
            }
            i += 1;
        }
        None
    }

    /// All contents in the order of the names.
    pub fn values(&self) -> (values: Vec<String>)
        ensures
            text_views(values@) == contents(self@),
    {
        let mut values: Vec<String> = Vec::new();
        let mut i: usize = 0;
        while i < self.entries.len()
            invariant
                i <= self.entries.len(),
                values@.len() == i,
                forall|k: int| 0 <= k < i ==> (#[trigger] values@[k])@ == self@[k].1,
            decreases self.entries.len() - i,
        {
            values.push(self.entries[i].1.clone());
            i += 1;
        }
        assert(text_views(values@) =~= contents(self@));
        values
    }

    /// Name and content of the files, in the order of the names.
    pub fn entries(&self) -> (entries: &Vec<(String, String)>)
        ensures
            entry_views(entries@) == self@,
    {
        &self.entries
    }
}

/// The first `n` files by name, with their contents normalized. A later file
/// takes the place of an earlier one of the same name.
pub open spec fn normalized_files(raw: Seq<(Seq<char>, Seq<char>)>, n: int) -> Seq<
    (Seq<char>, Seq<char>),
>
    decreases n,
{
    if n <= 0 {
        seq![]
    } else {
        with_file(normalized_files(raw, n - 1), raw[n - 1].0, normalized(raw[n - 1].1))
    }
}

/// The bytes that identify a set of files: each name and each content, ended
/// by a zero byte.
pub open spec fn bundle_bytes(files: Seq<(Seq<char>, Seq<char>)>) -> Seq<u8>
    decreases files.len(),
{
    if files.len() == 0 {
        seq![]
    } else {
        bundle_bytes(files.drop_last()) + encode_utf8(files.last().0) + seq![0u8] + encode_utf8(
            files.last().1,
        ) + seq![0u8]
    }
}

fn push_bytes(out: &mut Vec<u8>, bytes: &[u8])
    ensures
        final(out)@ == old(out)@ + bytes@,
{
    let mut i: usize = 0;
    while i < bytes.len()
        invariant
            i <= bytes.len(),
            out@ == old(out)@ + bytes@.take(i as int),
        decreases bytes.len() - i,
    {
        out.push(bytes[i]);
        i += 1;
        assert(out@ =~= old(out)@ + bytes@.take(i as int));
    }
    assert(bytes@.take(i as int) =~= bytes@);
}

/// The prompt of one stage.
#[derive(Debug, PartialEq, Eq)]
pub struct PromptBundle {
    pub schema_version: u32,
    pub stage: PromptStage,
    pub files: PromptFiles,
    pub content_hash: String,
}

impl PromptBundle {
    pub fn from_files(stage: PromptStage, files: PromptFiles) -> (bundle: Self)
        ensures
            bundle.schema_version == 1,
            bundle.stage == stage,
            bundle.files == files,
            bundle.content_hash@ == blake3_hex(bundle_bytes(files@)),
    {
        let mut bytes: Vec<u8> = Vec::new();
        let mut i: usize = 0;
        assert(files@.take(0) =~= seq![]);
        while i < files.entries.len()
            invariant
                i <= files.entries.len(),
                bytes@ == bundle_bytes(files@.take(i as int)),
            decreases files.entries.len() - i,
        {
            assert(files@.take(i + 1).drop_last() =~= files@.take(i as int));
            push_bytes(&mut bytes, files.entries[i].0.as_str().as_bytes());
            bytes.push(0);
            push_bytes(&mut bytes, files.entries[i].1.as_str().as_bytes());
            bytes.push(0);
            i += 1;
            assert(bytes@ =~= bundle_bytes(files@.take(i as int)));
        }
        assert(files@.take(i as int) =~= files@);
        let content_hash = content_hash(bytes.as_slice());
        PromptBundle { schema_version: 1, stage, files, content_hash }
    }

    /// The bundle of the files that were found in the directory of a stage.
    pub fn from_directory(stage: PromptStage, directory: &str, raw: &Vec<(String, String)>) -> (result:
        VcResult<Self>)
        ensures
            match result {
                Ok(bundle) => {
                    &&& raw@.len() > 0
                    &&& bundle.schema_version == 1
                    &&& bundle.stage == stage
                    &&& bundle.files@ == normalized_files(entry_views(raw@), raw@.len() as int)
                    &&& bundle.content_hash@ == blake3_hex(bundle_bytes(bundle.files@))
                },
                Err(error) => raw@.len() == 0 && error@ == VcErrorView::plain(
                    ErrorCode::InvalidConfig,
                    "prompt stage "@ + directory@ + " contains no files"@,
                ),
            },
    {
        if raw.len() == 0 {
            let mut text = "prompt stage ".to_owned();
            text.append(directory);
            text.append(" contains no files");
            return Err(VcError::new(ErrorCode::InvalidConfig, text.as_str()));
        }
        let mut files = PromptFiles::new();
        let mut i: usize = 0;
        while i < raw.len()
            invariant
                i <= raw.len(),
                files@ == normalized_files(entry_views(raw@), i as int),
            decreases raw.len() - i,
        {
            let content = normalize_prompt(raw[i].1.as_str());
            files.insert(raw[i].0.as_str(), content.as_str());
            i += 1;
        }
        Ok(Self::from_files(stage, files))
    }

    /// Where the bundle is frozen for a job.
    pub fn snapshot_dir(&self, job_dir: &str) -> (path: String)
        ensures
            path@ == below(below(below(job_dir@, "llm"@), "prompts"@), self.stage.text()),
    {
        let dir = join_path(job_dir, "llm");
        let dir = join_path(dir.as_str(), "prompts");
        join_path(dir.as_str(), self.stage.as_str())
    }

    /// The file `system.txt`, or all files one after the other without it.
    pub fn system_prompt(&self) -> (prompt: String)
        ensures
            prompt@ == (match content_of(self.files@, "system.txt"@, 0) {
                Some(content) => content,
                None => joined_with(contents(self.files@), "\n"@),
            }),
    {
        match self.files.get("system.txt") {
            Some(content) => content,
            None => {
                let values = self.files.values();
                join_with(&values, "\n")
            },
        }
    }
}

/// The text with every line break as one line feed.
pub open spec fn line_feeds(text: Seq<char>) -> Seq<char>
    decreases text.len(),
{
    if text.len() == 0 {
        seq![]
    } else if text.last() == '\r' {
        line_feeds(text.drop_last()).push('\n')
    } else if text.last() == '\n' && text.len() > 1 && text[text.len() - 2] == '\r' {
        line_feeds(text.drop_last())
    } else {
        line_feeds(text.drop_last()).push(text.last())
    }
}

/// The text with line feeds for line breaks, and with one at the end.
pub open spec fn normalized(text: Seq<char>) -> Seq<char> {
    let lines = line_feeds(text);
    if lines.len() > 0 && lines.last() == '\n' {
        lines
    } else {
        lines.push('\n')
    }
}

/// Normalize the line breaks of a prompt file.
pub fn normalize_prompt(input: &str) -> (out: String)
    ensures
        out@ == normalized(input@),
{
    let chars = chars_of(input);
    let mut out = String::new();
    let mut ends_line = false;
    let mut i: usize = 0;
    assert(chars@.take(0) =~= seq![]);
    while i < chars.len()
        invariant
            i <= chars.len(),
            out@ == line_feeds(chars@.take(i as int)),
            ends_line == (out@.len() > 0 && out@.last() == '\n'),
        decreases chars.len() - i,
    {
        let c = chars[i];
        assert(chars@.take(i + 1).drop_last() =~= chars@.take(i as int));
        if c == '\r' {
            out.push('\n');
            ends_line = true;
        } else if c == '\n' && i > 0 && chars[i - 1] == '\r' {
            proof {
                assert(chars@.take(i as int).last() == '\r');
            }
        } else {
            out.push(c);
            ends_line = c == '\n';
        }
        i += 1;
    }
    assert(chars@.take(i as int) =~= chars@);
    if !ends_line {
        out.push('\n');
    }
    out
}

proof fn lemma_line_feeds(text: Seq<char>)
    ensures
        forall|i: int| 0 <= i < line_feeds(text).len() ==> #[trigger] line_feeds(text)[i] != '\r',
    decreases text.len(),
{
    if text.len() > 0 {
        lemma_line_feeds(text.drop_last());
        let front = line_feeds(text.drop_last());
        assert forall|i: int| 0 <= i < line_feeds(text).len() implies #[trigger] line_feeds(text)[i]
            != '\r' by {
            if i < front.len() {
                assert(front[i] != '\r');
            }
        }
    }
}

proof fn lemma_line_feeds_keeps_plain_text(text: Seq<char>)
    requires
        forall|i: int| 0 <= i < text.len() ==> #[trigger] text[i] != '\r',
    ensures
        line_feeds(text) == text,
    decreases text.len(),
{
    if text.len() > 0 {
        lemma_line_feeds_keeps_plain_text(text.drop_last());
        assert(text[text.len() - 1] != '\r');
        if text.len() > 1 {
            assert(text[text.len() - 2] != '\r');
        }
        assert(line_feeds(text) =~= text);
    } else {
        assert(line_feeds(text) =~= text);
    }
}

/// A normalized prompt has no carriage returns, ends with a line feed, and
/// stays as it is when it is normalized again.
pub proof fn law_normalization_is_final(text: Seq<char>)
    ensures
        forall|i: int| 0 <= i < normalized(text).len() ==> #[trigger] normalized(text)[i] != '\r',
        normalized(text).len() > 0,
        normalized(text).last() == '\n',
        normalized(normalized(text)) == normalized(text),
{
    lemma_line_feeds(text);
    assert forall|i: int| 0 <= i < normalized(text).len() implies #[trigger] normalized(text)[i]
        != '\r' by {
        if i < line_feeds(text).len() {
            assert(line_feeds(text)[i] != '\r');
        }
    }
    lemma_line_feeds_keeps_plain_text(normalized(text));
}

/// Adding files keeps them in the order of their names.
pub proof fn law_files_stay_in_name_order(
    files: Seq<(Seq<char>, Seq<char>)>,
    name: Seq<char>,
    content: Seq<char>,
)
    requires
        in_name_order(files),
    ensures
        in_name_order(with_file(files, name, content)),
        forall|i: int|
            0 <= i < with_file(files, name, content).len() ==> (#[trigger] with_file(
                files,
                name,
                content,
            )[i]).0 == name || exists|k: int|
                0 <= k < files.len() && (#[trigger] files[k]).0 == with_file(
                    files,
                    name,
                    content,
                )[i].0,
    decreases files.len(),
{
    let out = with_file(files, name, content);
    if files.len() == 0 {
    } else if files[0].0 == name {
        assert forall|i: int| 0 <= i < out.len() implies (#[trigger] out[i]).0 == files[i].0 by {
            if i > 0 {
                assert(out[i] == files.drop_first()[i - 1]);
            }
        }
    } else if before(name, files[0].0) {
        assert forall|i: int, j: int| 0 <= i < j < out.len() implies before(
            (#[trigger] out[i]).0,
            (#[trigger] out[j]).0,
        ) by {
            assert(out[j] == files[j - 1]);
            if i == 0 {
                if j > 1 {
                    lemma_before_is_transitive(name, files[0].0, files[j - 1].0);
                }
            } else {
                assert(out[i] == files[i - 1]);
            }
        }
        assert forall|i: int| 0 <= i < out.len() implies (#[trigger] out[i]).0 == name || exists|
            k: int,
        |
            0 <= k < files.len() && (#[trigger] files[k]).0 == out[i].0 by {
            if i > 0 {
                assert(files[i - 1].0 == out[i].0);
            }
        }
    } else {
        let rest = files.drop_first();
        assert(in_name_order(rest)) by {
            assert forall|i: int, j: int| 0 <= i < j < rest.len() implies before(
                (#[trigger] rest[i]).0,
                (#[trigger] rest[j]).0,
            ) by {
                assert(before(files[i + 1].0, files[j + 1].0));
            }
        }
        law_files_stay_in_name_order(rest, name, content);
        let tail = with_file(rest, name, content);
        lemma_before_is_total(name, files[0].0);
        assert forall|i: int, j: int| 0 <= i < j < out.len() implies before(
            (#[trigger] out[i]).0,
            (#[trigger] out[j]).0,
        ) by {
            assert(out[j] == tail[j - 1]);
            if i == 0 {
                if tail[j - 1].0 != name {
                    let k = choose|k: int|
                        0 <= k < rest.len() && (#[trigger] rest[k]).0 == tail[j - 1].0;
                    assert(before(files[0].0, files[k + 1].0));
                }
            } else {
                assert(out[i] == tail[i - 1]);
            }
        }
        assert forall|i: int| 0 <= i < out.len() implies (#[trigger] out[i]).0 == name || exists|
            k: int,
        |
            0 <= k < files.len() && (#[trigger] files[k]).0 == out[i].0 by {
            if i > 0 {
                assert(out[i] == tail[i - 1]);
                if tail[i - 1].0 != name {
                    let k = choose|k: int|
                        0 <= k < rest.len() && (#[trigger] rest[k]).0 == tail[i - 1].0;
                    assert(files[k + 1].0 == out[i].0);
                }
            } else {
                assert(files[0].0 == out[0].0);
            }
        }
    }
}

/// Two files under different names can be added in either order.
pub proof fn law_insertion_order_does_not_matter(
    files: Seq<(Seq<char>, Seq<char>)>,
    a: Seq<char>,
    a_content: Seq<char>,
    b: Seq<char>,
    b_content: Seq<char>,
)
    requires
        a != b,
        in_name_order(files),
    ensures
        with_file(with_file(files, a, a_content), b, b_content) == with_file(
            with_file(files, b, b_content),
            a,
            a_content,
        ),
    decreases files.len(),
{
    lemma_before_is_total(a, b);
    let ab = with_file(with_file(files, a, a_content), b, b_content);
    let ba = with_file(with_file(files, b, b_content), a, a_content);
    if files.len() == 0 {
        reveal_with_fuel(with_file, 3);
        assert(seq![(a, a_content)].drop_first() =~= seq![]);
        assert(seq![(b, b_content)].drop_first() =~= seq![]);
        assert(ab =~= ba);
    } else {
        let h = files[0];
        let rest = files.drop_first();
        lemma_before_is_total(a, h.0);
        lemma_before_is_total(b, h.0);
        if before(a, b) && before(b, h.0) {
            lemma_before_is_transitive(a, b, h.0);
        }
        if before(b, a) && before(a, h.0) {
            lemma_before_is_transitive(b, a, h.0);
        }
        if before(a, h.0) && before(h.0, b) {
            lemma_before_is_transitive(a, h.0, b);
        }
        if before(b, h.0) && before(h.0, a) {
            lemma_before_is_transitive(b, h.0, a);
        }
        assert(in_name_order(rest)) by {
            assert forall|i: int, j: int| 0 <= i < j < rest.len() implies before(
                (#[trigger] rest[i]).0,
                (#[trigger] rest[j]).0,
            ) by {
                assert(before(files[i + 1].0, files[j + 1].0));
            }
        }
        law_insertion_order_does_not_matter(rest, a, a_content, b, b_content);
        lemma_head_and_rest(files, a, a_content, b, b_content);
        lemma_head_and_rest(files, b, b_content, a, a_content);
        assert(ab =~= ba);
    }
}

/// What two insertions do to a list with a first file.
proof fn lemma_head_and_rest(
    files: Seq<(Seq<char>, Seq<char>)>,
    a: Seq<char>,
    ac: Seq<char>,
    b: Seq<char>,
    bc: Seq<char>,
)
    requires
        files.len() > 0,
        a != b,
    ensures
        ({
            let h = files[0];
            let rest = files.drop_first();
            let out = with_file(with_file(files, a, ac), b, bc);
            if a == h.0 {
                if before(b, a) {
                    out == seq![(b, bc), (a, ac)] + rest
                } else {
                    out == seq![(a, ac)] + with_file(rest, b, bc)
                }
            } else if before(a, h.0) {
                if before(b, a) {
                    out == seq![(b, bc), (a, ac)] + files
                } else {
                    out == seq![(a, ac)] + with_file(files, b, bc)
                }
            } else if b == h.0 {
                out == seq![(b, bc)] + with_file(rest, a, ac)
            } else if before(b, h.0) {
                out == seq![(b, bc), h] + with_file(rest, a, ac)
            } else {
                out == seq![h] + with_file(with_file(rest, a, ac), b, bc)
            }
        }),
{
    let h = files[0];
    let rest = files.drop_first();
    let one = with_file(files, a, ac);
    if a == h.0 {
        assert(one.drop_first() =~= rest);
    } else if before(a, h.0) {
        assert(one.drop_first() =~= files);
    } else {
        assert(one.drop_first() =~= with_file(rest, a, ac));
    }
    let out = with_file(one, b, bc);
    if a == h.0 && before(b, a) {
        assert(out =~= seq![(b, bc), (a, ac)] + rest);
    } else if a != h.0 && before(a, h.0) && before(b, a) {
        assert(out =~= seq![(b, bc), (a, ac)] + files);
    } else if a != h.0 && !before(a, h.0) && b != h.0 && before(b, h.0) {
        assert(out =~= seq![(b, bc), h] + with_file(rest, a, ac));
    }
}

proof fn lemma_content_from(files: Seq<(Seq<char>, Seq<char>)>, name: Seq<char>, from: int)
    requires
        0 < from <= files.len(),
    ensures
        content_of(files, name, from) == content_of(files.drop_first(), name, from - 1),
    decreases files.len() - from,
{
    if from < files.len() {
        assert(files.drop_first()[from - 1] == files[from]);
        if files[from].0 != name {
            lemma_content_from(files, name, from + 1);
        }
    }
}

/// A file that was added is found under its name with what it holds, in place of
/// one of the same name. All others are found as before.
pub proof fn law_added_files_are_found(
    files: Seq<(Seq<char>, Seq<char>)>,
    name: Seq<char>,
    content: Seq<char>,
    other: Seq<char>,
)
    ensures
        content_of(with_file(files, name, content), name, 0) == Some(content),
        other != name ==> content_of(with_file(files, name, content), other, 0) == content_of(
            files,
            other,
            0,
        ),
    decreases files.len(),
{
    let out = with_file(files, name, content);
    if files.len() > 0 {
        let rest = files.drop_first();
        lemma_content_from(files, other, 1);
        lemma_content_from(files, name, 1);
        lemma_content_from(out, other, 1);
        lemma_content_from(out, name, 1);
        if files[0].0 == name {
            assert(out.drop_first() =~= rest);
        } else if before(name, files[0].0) {
            assert(out.drop_first() =~= files);
        } else {
            law_added_files_are_found(rest, name, content, other);
            assert(out.drop_first() =~= with_file(rest, name, content));
        }
    } else {
        assert(out[0] == (name, content));
        if other != name {
            lemma_content_from(out, other, 1);
            assert(out.drop_first() =~= files);
        }
    }
}

/// Names are ordered by their first character that differs; a name comes behind
/// its own beginnings.
pub proof fn law_names_are_ordered(same: Seq<char>, a: Seq<char>, b: Seq<char>)
    ensures
        !before(a, a),
        b.len() > 0 ==> before(same, same + b),
        a.len() > 0 && b.len() > 0 && a[0] < b[0] ==> before(same + a, same + b),
    decreases same.len(), a.len(),
{
    if a.len() > 0 {
        law_names_are_ordered(seq![], a.drop_first(), b);
    }
    if same.len() > 0 {
        law_names_are_ordered(same.drop_first(), a, b);
        assert((same + a).drop_first() =~= same.drop_first() + a);
        assert((same + b).drop_first() =~= same.drop_first() + b);
    } else {
        assert(same + a =~= a);
        assert(same + b =~= b);
    }
}

/// Every end of line is one line feed, whether it was written as a carriage
/// return, a line feed or both. All else stays.
pub proof fn law_ends_of_line(text: Seq<char>, c: char)
    ensures
        line_feeds(seq![]) == Seq::<char>::empty(),
        line_feeds(text.push('\r')) == line_feeds(text).push('\n'),
        line_feeds(text.push('\r').push('\n')) == line_feeds(text).push('\n'),
        c != '\r' && c != '\n' ==> line_feeds(text.push(c)) == line_feeds(text).push(c),
        text.len() == 0 || text.last() != '\r' ==> line_feeds(text.push('\n')) == line_feeds(
            text,
        ).push('\n'),
{
    assert(text.push(c).drop_last() =~= text);
    assert(text.push('\r').drop_last() =~= text);
    assert(text.push('\n').drop_last() =~= text);
    assert(text.push('\r').push('\n').drop_last() =~= text.push('\r'));
}

/// A prompt without an end of line gets one, and others keep theirs.
pub proof fn law_prompts_end_with_a_line_feed(text: Seq<char>)
    ensures
        line_feeds(text).len() > 0 && line_feeds(text).last() == '\n' ==> normalized(text)
            == line_feeds(text),
        line_feeds(text).len() == 0 || line_feeds(text).last() != '\n' ==> normalized(text)
            == line_feeds(text).push('\n'),
{
}

/// The identity of a bundle covers the name and the content of every file, each
/// with a zero behind it.
pub proof fn law_bundles_cover_every_file(
    files: Seq<(Seq<char>, Seq<char>)>,
    name: Seq<char>,
    content: Seq<char>,
)
    ensures
        bundle_bytes(seq![]) == Seq::<u8>::empty(),
        bundle_bytes(files.push((name, content))) == bundle_bytes(files) + encode_utf8(name) + seq![
            0u8,
        ] + encode_utf8(content) + seq![0u8],
{
    assert(files.push((name, content)).drop_last() =~= files);
}

/// Files are normalized one by one, under their names.
pub proof fn law_files_are_normalized(
    raw: Seq<(Seq<char>, Seq<char>)>,
    name: Seq<char>,
    content: Seq<char>,
)
    ensures
        content_of(
            normalized_files(raw.push((name, content)), raw.len() as int + 1),
            name,
            0,
        ) == Some(normalized(content)),
{
    law_added_files_are_found(
        normalized_files(raw.push((name, content)), raw.len() as int),
        name,
        normalized(content),
        name,
    );
}

} // verus!
