//! Transcript export: Markdown, plain text, and JSON renderings of a
//! list of transcript segments.  Every format keeps only final
//! segments — interim ones are presentation-time state and are omitted
//! entirely — and the two text formats group them by source, the
//! microphone section first.

use vstd::prelude::*;
use crate::numfmt::{
    digit_char, dec3_u64, millis_spec, millis_string, pad2_spec, pad2_u64, ppm_spec, ppm_string,
};
use crate::types::{AudioSource, TranscriptSegment};

verus! {

/// A second count as a clock display: `mm:ss`, or `hh:mm:ss` from one
/// hour on, each field zero-padded to two digits.
pub open spec fn timestamp_spec(secs: int) -> Seq<char>
    recommends
        secs >= 0,
{
    let h = secs / 3600;
    let m = (secs % 3600) / 60;
    let s = secs % 60;
    if h > 0 {
        pad2_spec(h) + ":"@ + pad2_spec(m) + ":"@ + pad2_spec(s)
    } else {
        pad2_spec(m) + ":"@ + pad2_spec(s)
    }
}

/// Render a second count as a clock display.
pub fn format_timestamp(seconds: u64) -> (r: String)
    ensures
        r@ =~= timestamp_spec(seconds as int),
{
    let h = seconds / 3600;
    let m = (seconds % 3600) / 60;
    let s = seconds % 60;
    if h > 0 {
        let mut out = pad2_u64(h);
        out.append(":");
        let mm = pad2_u64(m);
        out.append(mm.as_str());
        out.append(":");
        let ss = pad2_u64(s);
        out.append(ss.as_str());
        out
    } else {
        let mut out = pad2_u64(m);
        out.append(":");
        let ss = pad2_u64(s);
        out.append(ss.as_str());
        out
    }
}

/// Whether a segment belongs in the section of the given source: it
/// must carry that source's tag and be final.
pub open spec fn in_section(seg: TranscriptSegment, src: AudioSource) -> bool {
    seg.source == src && seg.is_final
}

/// Whether any segment belongs in the section of the given source.
pub open spec fn has_section(segs: Seq<TranscriptSegment>, src: AudioSource) -> bool {
    exists|i: int| 0 <= i < segs.len() && in_section(segs[i], src)
}

/// One Markdown line: the text, optionally led by its bold bracketed
/// timestamp, followed by a blank line.
pub open spec fn md_line_spec(seg: TranscriptSegment, show_ts: bool) -> Seq<char> {
    if show_ts {
        "**["@ + timestamp_spec(seg.timestamp as int / 1000) + "]** "@ + seg.text@ + "\n\n"@
    } else {
        seg.text@ + "\n\n"@
    }
}

/// The Markdown lines of one source's final segments, in order.
pub open spec fn md_lines_spec(segs: Seq<TranscriptSegment>, src: AudioSource, show_ts: bool) -> Seq<char>
    decreases segs.len(),
{
    if segs.len() == 0 {
        Seq::empty()
    } else {
        md_lines_spec(segs.drop_last(), src, show_ts) + if in_section(segs.last(), src) {
            md_line_spec(segs.last(), show_ts)
        } else {
            Seq::empty()
        }
    }
}

/// The whole Markdown document: a title, then one section per source
/// that has final segments.
pub open spec fn md_spec(segs: Seq<TranscriptSegment>, show_ts: bool) -> Seq<char> {
    "# DualScribe Transcript\n\n"@ + (if has_section(segs, AudioSource::Mic) {
        "## You\n\n"@ + md_lines_spec(segs, AudioSource::Mic, show_ts)
    } else {
        Seq::empty()
    }) + (if has_section(segs, AudioSource::System) {
        "## System Audio\n\n"@ + md_lines_spec(segs, AudioSource::System, show_ts)
    } else {
        Seq::empty()
    })
}

/// One plain-text line: the text, optionally led by its bracketed
/// timestamp.
pub open spec fn txt_line_spec(seg: TranscriptSegment, show_ts: bool) -> Seq<char> {
    if show_ts {
        "["@ + timestamp_spec(seg.timestamp as int / 1000) + "] "@ + seg.text@ + "\n"@
    } else {
        seg.text@ + "\n"@
    }
}

/// The plain-text lines of one source's final segments, in order.
pub open spec fn txt_lines_spec(segs: Seq<TranscriptSegment>, src: AudioSource, show_ts: bool) -> Seq<char>
    decreases segs.len(),
{
    if segs.len() == 0 {
        Seq::empty()
    } else {
        txt_lines_spec(segs.drop_last(), src, show_ts) + if in_section(segs.last(), src) {
            txt_line_spec(segs.last(), show_ts)
        } else {
            Seq::empty()
        }
    }
}

/// The whole plain-text document: a title, then one banner-led section
/// per source that has final segments (a blank line closes the
/// microphone section).
pub open spec fn txt_spec(segs: Seq<TranscriptSegment>, show_ts: bool) -> Seq<char> {
    "DualScribe Transcript\n\n"@ + (if has_section(segs, AudioSource::Mic) {
        "--- You ---\n\n"@ + txt_lines_spec(segs, AudioSource::Mic, show_ts) + "\n"@
    } else {
        Seq::empty()
    }) + (if has_section(segs, AudioSource::System) {
        "--- System Audio ---\n\n"@ + txt_lines_spec(segs, AudioSource::System, show_ts)
    } else {
        Seq::empty()
    })
}

/// The hexadecimal digit character for `d` in `0..16`.
pub open spec fn hex_char(d: int) -> char {
    if d < 10 {
        digit_char(d)
    } else if d == 10 {
        'a'
    } else if d == 11 {
        'b'
    } else if d == 12 {
        'c'
    } else if d == 13 {
        'd'
    } else if d == 14 {
        'e'
    } else {
        'f'
    }
}

/// How one character is written inside a JSON string: quote,
/// backslash and the common control characters get their two-character
/// escapes, other control characters a `\u00XX` escape, and everything
/// else stands for itself.
pub open spec fn esc_char_spec(c: char) -> Seq<char> {
    if c == '"' {
        seq!['\\', '"']
    } else if c == '\\' {
        seq!['\\', '\\']
    } else if c == '\n' {
        seq!['\\', 'n']
    } else if c == '\r' {
        seq!['\\', 'r']
    } else if c == '\t' {
        seq!['\\', 't']
    } else if (c as int) < 32 {
        seq!['\\', 'u', '0', '0', hex_char(c as int / 16), hex_char(c as int % 16)]
    } else {
        seq![c]
    }
}

/// A text as the body of a JSON string.
pub open spec fn esc_spec(s: Seq<char>) -> Seq<char>
    decreases s.len(),
{
    if s.len() == 0 {
        Seq::empty()
    } else {
        esc_spec(s.drop_last()) + esc_char_spec(s.last())
    }
}

/// The JSON value of a source tag.
pub open spec fn source_str(src: AudioSource) -> Seq<char> {
    match src {
        AudioSource::Mic => "mic"@,
        AudioSource::System => "system"@,
    }
}

/// The JSON value of a truth value.
pub open spec fn bool_str(b: bool) -> Seq<char> {
    if b {
        "true"@
    } else {
        "false"@
    }
}

/// One segment as a JSON object: its text escaped, its timestamp in
/// decimal seconds, its confidence as a decimal fraction, its source
/// tag in lower case.
pub open spec fn json_obj_spec(seg: TranscriptSegment) -> Seq<char> {
    "{\"text\":\""@ + esc_spec(seg.text@) + "\",\"is_final\":"@ + bool_str(seg.is_final)
        + ",\"timestamp\":"@ + millis_spec(seg.timestamp as int) + ",\"confidence\":"@
        + ppm_spec(seg.confidence as int) + ",\"source\":\""@ + source_str(seg.source) + "\"}"@
}

/// The final segments, in order, of any source.
pub open spec fn finals_of(segs: Seq<TranscriptSegment>) -> Seq<TranscriptSegment>
    decreases segs.len(),
{
    if segs.len() == 0 {
        Seq::empty()
    } else {
        finals_of(segs.drop_last()) + if segs.last().is_final {
            seq![segs.last()]
        } else {
            Seq::empty()
        }
    }
}

/// The comma-separated JSON objects of a segment list.
pub open spec fn json_objs_spec(fs: Seq<TranscriptSegment>) -> Seq<char>
    decreases fs.len(),
{
    if fs.len() == 0 {
        Seq::empty()
    } else if fs.len() == 1 {
        json_obj_spec(fs[0])
    } else {
        json_objs_spec(fs.drop_last()) + seq![','] + json_obj_spec(fs.last())
    }
}

/// The whole JSON document: the array of the final segments.
pub open spec fn json_spec(segs: Seq<TranscriptSegment>) -> Seq<char> {
    "["@ + json_objs_spec(finals_of(segs)) + "]"@
}

/// The one-character string of a hexadecimal digit.
fn hex_str(d: u32) -> (r: &'static str)
    requires
        d < 16,
    ensures
        r@ =~= seq![hex_char(d as int)],
{
    proof {
        reveal_strlit("a");
        reveal_strlit("b");
        reveal_strlit("c");
        reveal_strlit("d");
        reveal_strlit("e");
        reveal_strlit("f");
    }
    if d < 10 {
        crate::numfmt::digit_str(d as u64)
    } else if d == 10 {
        "a"
    } else if d == 11 {
        "b"
    } else if d == 12 {
        "c"
    } else if d == 13 {
        "d"
    } else if d == 14 {
        "e"
    } else {
        "f"
    }
}

/// Append a text escaped for the inside of a JSON string.
fn append_escaped(out: &mut String, text: &String)
    ensures
        final(out)@ =~= old(out)@ + esc_spec(text@),
{
    proof {
        reveal_strlit("\\\"");
        reveal_strlit("\\\\");
        reveal_strlit("\\n");
        reveal_strlit("\\r");
        reveal_strlit("\\t");
        reveal_strlit("\\u00");
        assert(text@.take(0) =~= Seq::<char>::empty());
        assert(old(out)@ + Seq::<char>::empty() =~= old(out)@);
    }
    let n = text.as_str().unicode_len();
    let mut i: usize = 0;
    while i < n
        invariant
            n == text@.len(),
            i <= n,
            out@ =~= old(out)@ + esc_spec(text@.take(i as int)),
        decreases n - i,
    {
        let ghost prefix = text@.take(i as int);
        let c = text.as_str().get_char(i);
        proof {
            reveal_strlit("\\\"");
            reveal_strlit("\\\\");
            reveal_strlit("\\n");
            reveal_strlit("\\r");
            reveal_strlit("\\t");
            reveal_strlit("\\u00");
            assert(text@.take(i as int + 1).drop_last() =~= prefix);
            assert(text@.take(i as int + 1).last() == c);
            assert(esc_spec(text@.take(i as int + 1)) == esc_spec(prefix) + esc_char_spec(c));
        }
        if c == '"' {
            out.append("\\\"");
            proof {
                assert(("\\\""@) =~= seq!['\\', '"']);
            }
        } else if c == '\\' {
            out.append("\\\\");
            proof {
                assert(("\\\\"@) =~= seq!['\\', '\\']);
            }
        } else if c == '\n' {
            out.append("\\n");
            proof {
                assert(("\\n"@) =~= seq!['\\', 'n']);
            }
        } else if c == '\r' {
            out.append("\\r");
            proof {
                assert(("\\r"@) =~= seq!['\\', 'r']);
            }
        } else if c == '\t' {
            out.append("\\t");
            proof {
                assert(("\\t"@) =~= seq!['\\', 't']);
            }
        } else if (c as u32) < 32 {
            out.append("\\u00");
            out.append(hex_str((c as u32) / 16));
            out.append(hex_str((c as u32) % 16));
            proof {
                assert(("\\u00"@) =~= seq!['\\', 'u', '0', '0']);
                assert(("\\u00"@) + seq![hex_char(c as int / 16)] + seq![hex_char(c as int % 16)]
                    =~= esc_char_spec(c));
            }
        } else {
            let one = text.as_str().substring_char(i, i + 1);
            proof {
                assert(one@ =~= seq![c]);
            }
            out.append(one);
        }
        proof {
            assert(out@ =~= old(out)@ + esc_spec(text@.take(i as int + 1)));
        }
        i = i + 1;
    }
    proof {
        assert(text@.take(n as int) =~= text@);
    }
}

/// A field-for-field copy of a segment.
fn copy_segment(seg: &TranscriptSegment) -> (c: TranscriptSegment)
    ensures
        c == *seg,
{
    TranscriptSegment {
        text: seg.text.clone(),
        is_final: seg.is_final,
        timestamp: seg.timestamp,
        confidence: seg.confidence,
        source: seg.source,
    }
}

/// Append one source's section lines in Markdown.
fn append_md_lines(out: &mut String, segments: &Vec<TranscriptSegment>, src: AudioSource, show_ts: bool)
    ensures
        final(out)@ =~= old(out)@ + md_lines_spec(segments@, src, show_ts),
{
    proof {
        assert(segments@.take(0) =~= Seq::<TranscriptSegment>::empty());
        assert(old(out)@ + Seq::<char>::empty() =~= old(out)@);
    }
    let n = segments.len();
    let mut k: usize = 0;
    while k < n
        invariant
            n == segments@.len(),
            k <= n,
            out@ =~= old(out)@ + md_lines_spec(segments@.take(k as int), src, show_ts),
        decreases n - k,
    {
        let ghost prefix = segments@.take(k as int);
        proof {
            assert(segments@.take(k as int + 1).drop_last() =~= prefix);
            assert(segments@.take(k as int + 1).last() == segments@[k as int]);
        }
        let seg = &segments[k];
        let keep = match (seg.source, src) {
            (AudioSource::Mic, AudioSource::Mic) => seg.is_final,
            (AudioSource::System, AudioSource::System) => seg.is_final,
            _ => false,
        };
        if keep {
            if show_ts {
                out.append("**[");
                let ts = format_timestamp(seg.timestamp / 1000);
                out.append(ts.as_str());
                out.append("]** ");
                out.append(seg.text.as_str());
                out.append("\n\n");
            } else {
                out.append(seg.text.as_str());
                out.append("\n\n");
            }
        }
        proof {
            assert(out@ =~= old(out)@ + md_lines_spec(segments@.take(k as int + 1), src, show_ts));
        }
        k = k + 1;
    }
    proof {
        assert(segments@.take(n as int) =~= segments@);
    }
}

/// Append one source's section lines in plain text.
fn append_txt_lines(out: &mut String, segments: &Vec<TranscriptSegment>, src: AudioSource, show_ts: bool)
    ensures
        final(out)@ =~= old(out)@ + txt_lines_spec(segments@, src, show_ts),
{
    proof {
        assert(segments@.take(0) =~= Seq::<TranscriptSegment>::empty());
        assert(old(out)@ + Seq::<char>::empty() =~= old(out)@);
    }
    let n = segments.len();
    let mut k: usize = 0;
    while k < n
        invariant
            n == segments@.len(),
            k <= n,
            out@ =~= old(out)@ + txt_lines_spec(segments@.take(k as int), src, show_ts),
        decreases n - k,
    {
        let ghost prefix = segments@.take(k as int);
        proof {
            assert(segments@.take(k as int + 1).drop_last() =~= prefix);
            assert(segments@.take(k as int + 1).last() == segments@[k as int]);
        }
        let seg = &segments[k];
        let keep = match (seg.source, src) {
            (AudioSource::Mic, AudioSource::Mic) => seg.is_final,
            (AudioSource::System, AudioSource::System) => seg.is_final,
            _ => false,
        };
        if keep {
            if show_ts {
                out.append("[");
                let ts = format_timestamp(seg.timestamp / 1000);
                out.append(ts.as_str());
                out.append("] ");
                out.append(seg.text.as_str());
                out.append("\n");
            } else {
                out.append(seg.text.as_str());
                out.append("\n");
            }
        }
        proof {
            assert(out@ =~= old(out)@ + txt_lines_spec(segments@.take(k as int + 1), src, show_ts));
        }
        k = k + 1;
    }
    proof {
        assert(segments@.take(n as int) =~= segments@);
    }
}

/// Whether any final segment of this source is present.
fn section_present(segments: &Vec<TranscriptSegment>, src: AudioSource) -> (r: bool)
    ensures
        r == has_section(segments@, src),
{
    let n = segments.len();
    let mut k: usize = 0;
    while k < n
        invariant
            n == segments@.len(),
            k <= n,
            forall|i: int| 0 <= i < k ==> !in_section(segments@[i], src),
        decreases n - k,
    {
        let seg = &segments[k];
        let keep = match (seg.source, src) {
            (AudioSource::Mic, AudioSource::Mic) => seg.is_final,
            (AudioSource::System, AudioSource::System) => seg.is_final,
            _ => false,
        };
        if keep {
            proof {
                assert(in_section(segments@[k as int], src));
            }
            return true;
        }
        k = k + 1;
    }
    false
}

/// Render the Markdown document of the final segments.
pub fn export_markdown(segments: &Vec<TranscriptSegment>, show_timestamps: bool) -> (r: String)
    ensures
        r@ =~= md_spec(segments@, show_timestamps),
{
    let mut out = String::from_str("# DualScribe Transcript\n\n");
    let ghost after_title = out@;
    if section_present(segments, AudioSource::Mic) {
        out.append("## You\n\n");
        append_md_lines(&mut out, segments, AudioSource::Mic, show_timestamps);
    }
    let ghost after_mic = out@;
    if section_present(segments, AudioSource::System) {
        out.append("## System Audio\n\n");
        append_md_lines(&mut out, segments, AudioSource::System, show_timestamps);
    }
    proof {
        assert(out@ =~= md_spec(segments@, show_timestamps));
    }
    out
}

/// Render the plain-text document of the final segments.
pub fn export_plain_text(segments: &Vec<TranscriptSegment>, show_timestamps: bool) -> (r: String)
    ensures
        r@ =~= txt_spec(segments@, show_timestamps),
{
    let mut out = String::from_str("DualScribe Transcript\n\n");
    if section_present(segments, AudioSource::Mic) {
        out.append("--- You ---\n\n");
        append_txt_lines(&mut out, segments, AudioSource::Mic, show_timestamps);
        out.append("\n");
    }
    if section_present(segments, AudioSource::System) {
        out.append("--- System Audio ---\n\n");
        append_txt_lines(&mut out, segments, AudioSource::System, show_timestamps);
    }
    proof {
        assert(out@ =~= txt_spec(segments@, show_timestamps));
    }
    out
}

/// Render the JSON document of the final segments.  Rendering cannot
/// fail; the `Result` mirrors the export interface.
#[verifier::rlimit(50)]
pub fn export_json(segments: &Vec<TranscriptSegment>) -> (r: Result<String, String>)
    ensures
        r is Ok,
        r matches Ok(s) ==> s@ =~= json_spec(segments@),
{
    // collect the final segments of either source, in order
    let n = segments.len();
    let mut finals: Vec<TranscriptSegment> = Vec::new();
    let mut k: usize = 0;
    proof {
        assert(segments@.take(0) =~= Seq::<TranscriptSegment>::empty());
        assert(finals@ =~= finals_of(segments@.take(0)));
    }
    while k < n
        invariant
            n == segments@.len(),
            k <= n,
            finals@ =~= finals_of(segments@.take(k as int)),
        decreases n - k,
    {
        let ghost prefix = segments@.take(k as int);
        proof {
            assert(segments@.take(k as int + 1).drop_last() =~= prefix);
            assert(segments@.take(k as int + 1).last() == segments@[k as int]);
        }
        let seg = &segments[k];
        if seg.is_final {
            let ghost before = finals@;
            finals.push(copy_segment(seg));
            proof {
                assert(finals@ =~= before + seq![segments@[k as int]]);
            }
        }
        k = k + 1;
    }
    proof {
        assert(segments@.take(n as int) =~= segments@);
    }
    // render the array
    let mut out = String::from_str("[");
    let ghost open_br = out@;
    let m = finals.len();
    let mut j: usize = 0;
    proof {
        assert(finals@.take(0) =~= Seq::<TranscriptSegment>::empty());
        assert(out@ =~= open_br + json_objs_spec(finals@.take(0)));
    }
    while j < m
        invariant
            m == finals@.len(),
            j <= m,
            finals@ =~= finals_of(segments@),
            open_br =~= "["@,
            out@ =~= open_br + json_objs_spec(finals@.take(j as int)),
        decreases m - j,
    {
        let ghost prefix = finals@.take(j as int);
        proof {
            assert(finals@.take(j as int + 1).drop_last() =~= prefix);
            assert(finals@.take(j as int + 1).last() == finals@[j as int]);
            assert(finals@.take(j as int + 1)[0] == finals@[0]);
        }
        if j > 0 {
            out.append(",");
            proof {
                reveal_strlit(",");
                assert((","@) =~= seq![',']);
            }
        }
        let seg = &finals[j];
        out.append("{\"text\":\"");
        append_escaped(&mut out, &seg.text);
        out.append("\",\"is_final\":");
        if seg.is_final {
            out.append("true");
        } else {
            out.append("false");
        }
        out.append(",\"timestamp\":");
        let ts = millis_string(seg.timestamp);
        out.append(ts.as_str());
        out.append(",\"confidence\":");
        let conf = ppm_string(seg.confidence);
        out.append(conf.as_str());
        out.append(",\"source\":\"");
        match seg.source {
            AudioSource::Mic => out.append("mic"),
            AudioSource::System => out.append("system"),
        }
        out.append("\"}");
        proof {
            assert(out@ =~= open_br + json_objs_spec(finals@.take(j as int + 1)));
        }
        j = j + 1;
    }
    proof {
        assert(finals@.take(m as int) =~= finals@);
        reveal_strlit(",");
    }
    out.append("]");
    proof {
        assert(out@ =~= json_spec(segments@));
    }
    Ok(out)
}

/// Render in the named format — `markdown`, `text` or `json` — or
/// report an unknown format.
pub fn export_transcript(
    segments: &Vec<TranscriptSegment>,
    format: &String,
    show_timestamps: bool,
) -> (r: Result<String, String>)
    ensures
        format@ == "markdown"@ ==> (r matches Ok(s) && s@ =~= md_spec(segments@, show_timestamps)),
        format@ == "text"@ ==> (r matches Ok(s) && s@ =~= txt_spec(segments@, show_timestamps)),
        format@ == "json"@ ==> (r matches Ok(s) && s@ =~= json_spec(segments@)),
        (format@ != "markdown"@ && format@ != "text"@ && format@ != "json"@)
            ==> (r matches Err(e) && e@ =~= "Unknown format: "@ + format@),
{
    proof {
        reveal_strlit("markdown");
        reveal_strlit("text");
        reveal_strlit("json");
        assert(("markdown"@).len() == 8);
        assert(("markdown"@) != ("text"@));
        assert(("markdown"@) != ("json"@));
        assert(("text"@).len() == 4);
        assert(("json"@).len() == 4);
        assert(("text"@) != ("json"@)) by {
            assert(("text"@)[0] == 't');
            assert(("json"@)[0] == 'j');
        }
    }
    let md = String::from_str("markdown");
    let txt = String::from_str("text");
    let js = String::from_str("json");
    if *format == md {
        Ok(export_markdown(segments, show_timestamps))
    } else if *format == txt {
        Ok(export_plain_text(segments, show_timestamps))
    } else if *format == js {
        export_json(segments)
    } else {
        let mut e = String::from_str("Unknown format: ");
        e.append(format.as_str());
        Err(e)
    }
}

} // verus!
