//! Splitting Markdown documents into heading-delimited sections and
//! overlapping, content-addressed chunks.

use vstd::prelude::*;
use crate::text::{
    chars_of, collect_chars, compute_hash, decimal, decimal_of, lines_of, sha256_hex,
    split_lines, strings_view, trim, trimmed_of,
};
use crate::windows::{bounds_view, split_windows, window_bounds};

verus! {

/// Maximum chunk length, in characters, used unless configured otherwise.
pub const DEFAULT_CHUNK_SIZE: usize = 1000;

/// Overlap between consecutive sub-chunks, in characters, used unless configured otherwise.
pub const DEFAULT_OVERLAP: usize = 125;

/// A heading-delimited section of a document, before it is split into windows.
pub struct Section {
    pub title_path: String,
    pub section: String,
    pub text: String,
}

pub struct SectionView {
    pub title_path: Seq<char>,
    pub section: Seq<char>,
    pub text: Seq<char>,
}

impl View for Section {
    type V = SectionView;

    open spec fn view(&self) -> SectionView {
        SectionView { title_path: self.title_path@, section: self.section@, text: self.text@ }
    }
}

/// The unit of retrieval.
#[derive(Debug, Clone)]
pub struct Chunk {
    pub doc_id: String,
    pub chunk_id: String,
    pub path: String,
    pub title_path: String,
    pub section: String,
    pub text: String,
    pub hash: String,
}

pub struct ChunkView {
    pub doc_id: Seq<char>,
    pub chunk_id: Seq<char>,
    pub path: Seq<char>,
    pub title_path: Seq<char>,
    pub section: Seq<char>,
    pub text: Seq<char>,
    pub hash: Seq<char>,
}

impl View for Chunk {
    type V = ChunkView;

    open spec fn view(&self) -> ChunkView {
        ChunkView {
            doc_id: self.doc_id@,
            chunk_id: self.chunk_id@,
            path: self.path@,
            title_path: self.title_path@,
            section: self.section@,
            text: self.text@,
            hash: self.hash@,
        }
    }
}

pub open spec fn sections_view(v: Seq<Section>) -> Seq<SectionView> {
    v.map_values(|s: Section| s@)
}

pub open spec fn chunks_view(v: Seq<Chunk>) -> Seq<ChunkView> {
    v.map_values(|c: Chunk| c@)
}

/// The breadcrumb after a heading of the given level: level 1 replaces it,
/// level 2 appends `" / heading"` (just the heading when the breadcrumb is
/// empty), level 3 appends `" > heading"`, and deeper levels leave it as is.
pub open spec fn breadcrumb(title: Seq<char>, level: nat, heading: Seq<char>) -> Seq<char> {
    if level == 1 {
        heading
    } else if level == 2 {
        if title.len() == 0 {
            heading
        } else {
            title + " / "@ + heading
        }
    } else if level == 3 {
        title + " > "@ + heading
    } else {
        title
    }
}

/// The index of the first character at or after `i` that is not `#`.
pub open spec fn hash_run(t: Seq<char>, i: int) -> int
    decreases t.len() - i,
{
    if 0 <= i < t.len() && t[i] == '#' {
        hash_run(t, i + 1)
    } else {
        i
    }
}

pub open spec fn is_heading(line: Seq<char>) -> bool {
    trimmed_of(line).len() > 0 && trimmed_of(line)[0] == '#'
}

pub open spec fn heading_level(line: Seq<char>) -> int {
    hash_run(trimmed_of(line), 0)
}

pub open spec fn heading_text(line: Seq<char>) -> Seq<char> {
    let t = trimmed_of(line);
    trimmed_of(t.subrange(heading_level(line), t.len() as int))
}

/// The state of the scan over a document's lines.
pub struct ScanState {
    pub title: Seq<char>,
    pub section: Seq<char>,
    pub buffer: Seq<char>,
    pub done: Seq<SectionView>,
}

/// The finished sections, with the buffered body added as one more section
/// when it holds anything but whitespace.
pub open spec fn flush(st: ScanState) -> Seq<SectionView> {
    let text = trimmed_of(st.buffer);
    if text.len() > 0 {
        st.done.push(SectionView { title_path: st.title, section: st.section, text })
    } else {
        st.done
    }
}

pub open spec fn scan_step(st: ScanState, line: Seq<char>) -> ScanState {
    if is_heading(line) {
        let heading = heading_text(line);
        ScanState {
            title: breadcrumb(st.title, heading_level(line) as nat, heading),
            section: heading,
            buffer: Seq::empty(),
            done: flush(st),
        }
    } else {
        ScanState { buffer: st.buffer + line + seq!['\n'], ..st }
    }
}

pub open spec fn scan(lines: Seq<Seq<char>>) -> ScanState
    decreases lines.len(),
{
    if lines.len() == 0 {
        ScanState {
            title: Seq::empty(),
            section: Seq::empty(),
            buffer: Seq::empty(),
            done: Seq::empty(),
        }
    } else {
        scan_step(scan(lines.drop_last()), lines.last())
    }
}

/// The heading-delimited sections of a Markdown document.
pub open spec fn sections_of(content: Seq<char>) -> Seq<SectionView> {
    flush(scan(lines_of(content)))
}

pub open spec fn chunk_id_of(doc_id: Seq<char>, n: nat) -> Seq<char> {
    doc_id + "_chunk_"@ + decimal_of(n)
}

pub open spec fn make_chunk(
    doc_id: Seq<char>,
    path: Seq<char>,
    s: SectionView,
    n: nat,
    text: Seq<char>,
) -> ChunkView {
    ChunkView {
        doc_id,
        chunk_id: chunk_id_of(doc_id, n),
        path,
        title_path: s.title_path,
        section: s.section,
        text,
        hash: sha256_hex(text),
    }
}

/// The chunks of one section: the section itself when it fits in `size`
/// characters, else one chunk per window.
pub open spec fn section_chunks(
    doc_id: Seq<char>,
    path: Seq<char>,
    s: SectionView,
    size: nat,
    overlap: nat,
) -> Seq<ChunkView> {
    if s.text.len() <= size {
        seq![make_chunk(doc_id, path, s, 0, s.text)]
    } else {
        let w = window_bounds(0, s.text.len() as int, size as int, size - overlap);
        Seq::new(
            w.len(),
            |k: int| make_chunk(doc_id, path, s, k as nat, s.text.subrange(w[k].0, w[k].1)),
        )
    }
}

pub open spec fn expand(
    doc_id: Seq<char>,
    path: Seq<char>,
    sections: Seq<SectionView>,
    size: nat,
    overlap: nat,
) -> Seq<ChunkView>
    decreases sections.len(),
{
    if sections.len() == 0 {
        Seq::empty()
    } else {
        expand(doc_id, path, sections.drop_last(), size, overlap) + section_chunks(
            doc_id,
            path,
            sections.last(),
            size,
            overlap,
        )
    }
}

/// All chunks of a document, section by section.
pub open spec fn chunks_of(
    doc_id: Seq<char>,
    path: Seq<char>,
    content: Seq<char>,
    size: nat,
    overlap: nat,
) -> Seq<ChunkView> {
    expand(doc_id, path, sections_of(content), size, overlap)
}

fn chunk_id(doc_id: &str, n: usize) -> (r: String)
    ensures
        r@ == chunk_id_of(doc_id@, n as nat),
{
    let mut r = String::from_str(doc_id);
    r.append("_chunk_");
    let d = decimal(n);
    r.append(d.as_str());
    r
}

fn next_title_path(title: &String, level: usize, heading: &String) -> (r: String)
    ensures
        r@ == breadcrumb(title@, level as nat, heading@),
{
    if level == 1 {
        heading.clone()
    } else if level == 2 {
        if title.as_str().is_empty() {
            heading.clone()
        } else {
            let mut r = title.clone();
            r.append(" / ");
            r.append(heading.as_str());
            r
        }
    } else if level == 3 {
        let mut r = title.clone();
        r.append(" > ");
        r.append(heading.as_str());
        r
    } else {
        title.clone()
    }
}

/// Adds the buffered body to `done` as a section when it holds anything but whitespace.
fn flush_buffer(done: &mut Vec<Section>, title: &String, section: &String, buffer: &String)
    ensures
        sections_view(final(done)@) == flush(
            ScanState {
                title: title@,
                section: section@,
                buffer: buffer@,
                done: sections_view(old(done)@),
            },
        ),
{
    let text = trim(buffer.as_str());
    if !text.as_str().is_empty() {
        let s = Section { title_path: title.clone(), section: section.clone(), text };
        done.push(s);
        proof {
            assert(sections_view(done@) =~= sections_view(old(done)@).push(s@));
        }
    }
}

/// Splits a document into heading-delimited sections: each heading line
/// closes the section before it and updates the breadcrumb; other lines
/// are body text.
pub fn parse_sections(content: &str) -> (r: Vec<Section>)
    ensures
        sections_view(r@) == sections_of(content@),
{
    let lines = split_lines(content);
    let ghost lv = strings_view(lines@);
    let mut title = String::new();
    let mut section = String::new();
    let mut buffer = String::new();
    let mut done: Vec<Section> = Vec::new();
    let mut i: usize = 0;
    proof {
        assert(lv.take(0) =~= Seq::<Seq<char>>::empty());
        assert(sections_view(done@) =~= Seq::<SectionView>::empty());
    }
    while i < lines.len()
        invariant
            lv == lines_of(content@),
            lv == strings_view(lines@),
            i <= lines.len(),
            scan(lv.take(i as int)) == (ScanState {
                title: title@,
                section: section@,
                buffer: buffer@,
                done: sections_view(done@),
            }),
        decreases lines.len() - i,
    {
        let line = &lines[i];
        proof {
            assert(lv.take(i + 1).drop_last() =~= lv.take(i as int));
            assert(lv.take(i + 1).last() == line@);
        }
        let ghost before = ScanState {
            title: title@,
            section: section@,
            buffer: buffer@,
            done: sections_view(done@),
        };
        proof {
            assert(scan(lv.take(i + 1)) == scan_step(before, line@));
        }
        let t = trim(line.as_str());
        let tc = chars_of(t.as_str());
        if tc.len() > 0 && tc[0] == '#' {
            assert(is_heading(line@));
            flush_buffer(&mut done, &title, &section, &buffer);
            buffer = String::new();
            let mut level: usize = 0;
            while level < tc.len() && tc[level] == '#'
                invariant
                    level <= tc.len(),
                    hash_run(tc@, level as int) == hash_run(tc@, 0),
                decreases tc.len() - level,
            {
                level = level + 1;
            }
            let rest = collect_chars(&tc[level..tc.len()]);
            let heading = trim(rest.as_str());
            assert(heading_level(line@) == level);
            assert(heading@ == heading_text(line@));
            title = next_title_path(&title, level, &heading);
            section = heading;
        } else {
            assert(!is_heading(line@));
            buffer.append(line.as_str());
            buffer.append("\n");
            proof {
                reveal_strlit("\n");
                assert(buffer@ =~= before.buffer + line@ + seq!['\n']);
            }
        }
        i = i + 1;
    }
    flush_buffer(&mut done, &title, &section, &buffer);
    proof {
        assert(lv.take(lines.len() as int) =~= lv);
    }
    done
}

/// Appends the chunks of one section to `out`: the section whole when it
/// fits, else one chunk per overlapping window.
pub fn create_overlapping_chunks(
    doc_id: &str,
    path: &str,
    s: &Section,
    size: usize,
    overlap: usize,
    out: &mut Vec<Chunk>,
)
    requires
        overlap < size,
    ensures
        chunks_view(final(out)@) == chunks_view(old(out)@) + section_chunks(
            doc_id@,
            path@,
            s@,
            size as nat,
            overlap as nat,
        ),
{
    let ghost base = chunks_view(out@);
    let ghost expected = section_chunks(doc_id@, path@, s@, size as nat, overlap as nat);
    let chars = chars_of(s.text.as_str());
    if chars.len() <= size {
        let text = s.text.clone();
        let hash = compute_hash(text.as_str());
        let c = Chunk {
            doc_id: String::from_str(doc_id),
            chunk_id: chunk_id(doc_id, 0),
            path: String::from_str(path),
            title_path: s.title_path.clone(),
            section: s.section.clone(),
            text,
            hash,
        };
        out.push(c);
        proof {
            assert(chunks_view(out@) =~= base + expected);
        }
        return;
    }
    let w = split_windows(chars.len(), size, overlap);
    let ghost wb = window_bounds(0, chars.len() as int, size as int, size - overlap);
    let mut k: usize = 0;
    while k < w.len()
        invariant
            chars@ == s.text@,
            chars.len() > size,
            bounds_view(w@) == wb,
            wb == window_bounds(0, chars.len() as int, size as int, size - overlap),
            expected == section_chunks(doc_id@, path@, s@, size as nat, overlap as nat),
            expected.len() == wb.len(),
            k <= w.len(),
            chunks_view(out@) == base + expected.take(k as int),
        decreases w.len() - k,
    {
        let (start, end) = w[k];
        proof {
            assert(bounds_view(w@)[k as int] == (start as int, end as int));
            crate::windows::lemma_windows_cover(chars.len() as int, size as int, overlap as int);
            assert(crate::windows::window_at(wb, k as int, 0, chars.len() as int, size as int, size - overlap));
        }
        let text = collect_chars(&chars[start..end]);
        let hash = compute_hash(text.as_str());
        let c = Chunk {
            doc_id: String::from_str(doc_id),
            chunk_id: chunk_id(doc_id, k),
            path: String::from_str(path),
            title_path: s.title_path.clone(),
            section: s.section.clone(),
            text,
            hash,
        };
        let ghost before = out@;
        out.push(c);
        proof {
            assert(c@ == expected[k as int]);
            assert(chunks_view(out@) =~= chunks_view(before).push(c@));
            assert(expected.take(k + 1) =~= expected.take(k as int).push(expected[k as int]));
        }
        k = k + 1;
    }
    proof {
        assert(expected.take(k as int) =~= expected);
    }
}

/// Parses a document into sections and expands them into chunks.
pub fn parse_and_chunk(content: &str, path: &str, doc_id: &str, size: usize, overlap: usize) -> (r:
    Vec<Chunk>)
    requires
        overlap < size,
    ensures
        chunks_view(r@) == chunks_of(doc_id@, path@, content@, size as nat, overlap as nat),
{
    let sections = parse_sections(content);
    let ghost sv = sections_view(sections@);
    let mut out: Vec<Chunk> = Vec::new();
    let mut i: usize = 0;
    proof {
        assert(sv.take(0) =~= Seq::<SectionView>::empty());
        assert(chunks_view(out@) =~= Seq::<ChunkView>::empty());
    }
    while i < sections.len()
        invariant
            sv == sections_view(sections@),
            sv == sections_of(content@),
            overlap < size,
            i <= sections.len(),
            chunks_view(out@) == expand(doc_id@, path@, sv.take(i as int), size as nat, overlap as nat),
        decreases sections.len() - i,
    {
        create_overlapping_chunks(doc_id, path, &sections[i], size, overlap, &mut out);
        proof {
            assert(sv.take(i + 1).drop_last() =~= sv.take(i as int));
            assert(sv.take(i + 1).last() == sections@[i as int]@);
        }
        i = i + 1;
    }
    proof {
        assert(sv.take(sections.len() as int) =~= sv);
    }
    out
}

/// A section that fits within the chunk size yields exactly one chunk, whose
/// text is the section's text.
pub proof fn lemma_short_section_single_chunk(
    doc_id: Seq<char>,
    path: Seq<char>,
    s: SectionView,
    size: nat,
    overlap: nat,
)
    requires
        s.text.len() <= size,
    ensures
        section_chunks(doc_id, path, s, size, overlap).len() == 1,
        section_chunks(doc_id, path, s, size, overlap)[0].text == s.text,
{
}

/// A section longer than the chunk size, with `overlap < size`, yields one
/// chunk per window: chunk `k` starts at `k * (size - overlap)`, before the
/// end of the text, and holds `size` characters, except the last chunk,
/// which holds at least one and at most `size` characters and ends exactly
/// at the end of the text. Every chunk but the last ends before the end of
/// the text, so nothing follows the first chunk that reaches it.
pub proof fn lemma_long_section_window(
    doc_id: Seq<char>,
    path: Seq<char>,
    s: SectionView,
    size: nat,
    overlap: nat,
    k: int,
)
    requires
        overlap < size < s.text.len(),
        0 <= k < section_chunks(doc_id, path, s, size, overlap).len(),
    ensures
        section_chunks(doc_id, path, s, size, overlap).len() > 1,
        k * (size - overlap) < s.text.len(),
        k < section_chunks(doc_id, path, s, size, overlap).len() - 1 ==> {
            &&& k * (size - overlap) + size < s.text.len()
            &&& section_chunks(doc_id, path, s, size, overlap)[k].text == s.text.subrange(
                k * (size - overlap),
                k * (size - overlap) + size,
            )
        },
        k == section_chunks(doc_id, path, s, size, overlap).len() - 1 ==> {
            &&& s.text.len() <= k * (size - overlap) + size
            &&& section_chunks(doc_id, path, s, size, overlap)[k].text == s.text.subrange(
                k * (size - overlap),
                s.text.len() as int,
            )
        },
        1 <= section_chunks(doc_id, path, s, size, overlap)[k].text.len() <= size,
        section_chunks(doc_id, path, s, size, overlap)[k].chunk_id == chunk_id_of(doc_id, k as nat),
{
    crate::windows::lemma_windows_cover(s.text.len() as int, size as int, overlap as int);
    let w = window_bounds(0, s.text.len() as int, size as int, size - overlap);
    assert(crate::windows::window_at(w, k, 0, s.text.len() as int, size as int, size - overlap));
}

} // verus!
