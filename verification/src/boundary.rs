//! The credential boundary: what an operator's diagnostics may show, and whether the process may start.
use vstd::prelude::*;

use crate::auth::AuthMode;
use crate::text::{
    blank, chars_of, has_within, same, slice_of, stands_at, stands_between, trimmed, trimmed_empty_iff_blank,
};

verus! {

/// What stands in place of a value that may not be shown.
pub const REDACTED: &'static str = "[REDACTED]";

/// The longest value that is shown, in characters.
pub const MAX_VALUE_LEN: usize = 256;

/// The setting that opts an instance out of the boot gate.
pub const OPT_OUT_ENV: &'static str = "LIGHTTRACK_ALLOW_UNAUTHENTICATED";

/// The sentence that the setting has to hold.
pub const OPT_OUT_PHRASE: &'static str = "yes, anyone who can reach this port is an admin";

/// One field of a diagnostic record.
#[derive(Debug)]
pub struct Field {
    pub name: String,
    pub value: String,
}

/// Whether a field may be shown.
pub open spec fn showable(k: Seq<char>) -> bool {
    ||| k == "provider"@
    ||| k == "project"@
    ||| k == "route"@
    ||| k == "status"@
    ||| k == "reason"@
    ||| k == "duration_ms"@
}

fn is_showable(k: &str) -> (r: bool)
    ensures
        r == showable(k@),
{
    same(k, "provider") || same(k, "project") || same(k, "route") || same(k, "status") || same(
        k,
        "reason",
    ) || same(k, "duration_ms")
}

/// A value as it is shown: whole, or its beginning with a mark that it was cut.
pub open spec fn capped(v: Seq<char>) -> Seq<char> {
    if v.len() > MAX_VALUE_LEN {
        v.take(MAX_VALUE_LEN as int) + "[truncated]"@
    } else {
        v
    }
}

/// A value as it is shown, cut between characters.
pub fn cap(v: &str) -> (r: String)
    ensures
        r@ == capped(v@),
{
    let c = chars_of(v);
    if c.len() > MAX_VALUE_LEN {
        let mut out = slice_of(c.as_slice(), 0, MAX_VALUE_LEN);
        assert(out@ =~= v@.take(MAX_VALUE_LEN as int));
        out.append("[truncated]");
        out
    } else {
        v.to_owned()
    }
}

/// A field that may be shown.
pub open spec fn may_show() -> spec_fn(Field) -> bool {
    |f: Field| showable(f.name@)
}

/// A field as it is shown.
pub open spec fn shown_field(f: Field) -> Seq<char> {
    f.name@ + "="@ + capped(f.value@)
}

/// A header as it is shown: by name, its value replaced.
pub open spec fn shown_header(name: Seq<char>) -> Seq<char> {
    "header."@ + name + "="@ + REDACTED@
}

/// The parts of a record: the fields that may be shown, then every header by name.
pub open spec fn record_parts(fields: Seq<Field>, headers: Seq<Field>) -> Seq<Seq<char>> {
    fields.filter(may_show()).map_values(|f: Field| shown_field(f)) + headers.map_values(
        |h: Field| shown_header(h.name@),
    )
}

/// Parts with a space between them.
pub open spec fn spaced(parts: Seq<Seq<char>>) -> Seq<char>
    decreases parts.len(),
{
    if parts.len() == 0 {
        seq![]
    } else if parts.len() == 1 {
        parts[0]
    } else {
        spaced(parts.drop_last()) + " "@ + parts.last()
    }
}

fn push_part(out: &mut String, first: bool, part: &str, Ghost(parts): Ghost<Seq<Seq<char>>>)
    requires
        old(out)@ == spaced(parts),
        first == (parts.len() == 0),
    ensures
        final(out)@ == spaced(parts.push(part@)),
{
    assert(parts.push(part@).drop_last() =~= parts);
    if !first {
        out.append(" ");
    }
    out.append(part);
    proof {
        if first {
            assert(out@ =~= part@);
        }
    }
}

/// Renders a diagnostic record. Fields that are not on the list are left out, name and all; every
/// header is shown by name, and no header's value ever is.
pub fn render_operator_record(fields: &Vec<Field>, headers: &Vec<Field>) -> (r: String)
    ensures
        r@ == spaced(record_parts(fields@, headers@)),
{
    let ghost ff = |f: Field| shown_field(f);
    let ghost hf = |h: Field| shown_header(h.name@);
    let mut out = String::new();
    let mut n: usize = 0;
    let ghost mut parts: Seq<Seq<char>> = seq![];
    let mut i: usize = 0;
    proof {
        reveal(Seq::filter);
        assert(parts =~= fields@.take(0).filter(may_show()).map_values(ff));
    }
    while i < fields.len()
        invariant
            ff == (|f: Field| shown_field(f)),
            i <= fields.len(),
            n == parts.len(),
            n <= i,
            parts == fields@.take(i as int).filter(may_show()).map_values(ff),
            out@ == spaced(parts),
        decreases fields.len() - i,
    {
        let f = &fields[i];
        proof {
            crate::seqs::filter_step(fields@, i as int, may_show());
        }
        if is_showable(f.name.as_str()) {
            let v = cap(f.value.as_str());
            let mut part = f.name.clone();
            part.append("=");
            part.append(v.as_str());
            push_part(&mut out, n == 0, part.as_str(), Ghost(parts));
            proof {
                let kept = fields@.take(i as int).filter(may_show());
                assert(kept.push(fields@[i as int]).map_values(ff) =~= parts.push(part@));
                parts = parts.push(part@);
            }
            n += 1;
        }
        i += 1;
    }
    assert(fields@.take(i as int) =~= fields@);
    let ghost base = parts;
    let mut any = n > 0;
    let mut j: usize = 0;
    assert(parts =~= base + headers@.take(0).map_values(hf));
    while j < headers.len()
        invariant
            hf == (|h: Field| shown_header(h.name@)),
            j <= headers.len(),
            any == (parts.len() > 0),
            parts == base + headers@.take(j as int).map_values(hf),
            out@ == spaced(parts),
        decreases headers.len() - j,
    {
        let mut part = "header.".to_owned();
        part.append(headers[j].name.as_str());
        part.append("=");
        part.append(REDACTED);
        push_part(&mut out, !any, part.as_str(), Ghost(parts));
        proof {
            assert(headers@.take(j + 1) =~= headers@.take(j as int).push(headers@[j as int]));
            assert(base + headers@.take(j + 1).map_values(hf) =~= parts.push(part@));
            parts = parts.push(part@);
        }
        any = true;
        j += 1;
    }
    assert(headers@.take(j as int) =~= headers@);
    out
}

/// A record says nothing about a field that is not on the list, whatever its name or value: taking the
/// field out, or changing what it holds, changes nothing.
pub proof fn unlisted_fields_leave_no_trace(before: Seq<Field>, f: Field, after: Seq<Field>, headers: Seq<Field>)
    requires
        !showable(f.name@),
    ensures
        record_parts(before.push(f) + after, headers) == record_parts(before + after, headers),
{
    filters_agree(before, f, after);
}

/// A record says nothing about what a header holds: headers of the same names make the same record.
pub proof fn header_values_leave_no_trace(fields: Seq<Field>, a: Seq<Field>, b: Seq<Field>)
    requires
        a.len() == b.len(),
        forall|i: int| 0 <= i < a.len() ==> (#[trigger] a[i]).name@ == b[i].name@,
    ensures
        record_parts(fields, a) == record_parts(fields, b),
{
    assert(record_parts(fields, a) =~= record_parts(fields, b));
}

proof fn filters_agree(before: Seq<Field>, f: Field, after: Seq<Field>)
    requires
        !showable(f.name@),
    ensures
        (before.push(f) + after).filter(may_show()) == (before + after).filter(may_show()),
    decreases after.len(),
{
    reveal(Seq::filter);
    if after.len() == 0 {
        assert(before.push(f) + after =~= before.push(f));
        assert(before + after =~= before);
        assert(before.push(f).drop_last() =~= before);
    } else {
        let d = after.drop_last();
        assert((before.push(f) + after).drop_last() =~= before.push(f) + d);
        assert((before + after).drop_last() =~= before + d);
        filters_agree(before, f, d);
    }
}

/// Whether the process may start: credentials are demanded, or someone wrote the sentence.
pub open spec fn may_boot(mode: AuthMode, opt_out: Option<Seq<char>>) -> bool {
    mode == AuthMode::Enforced || (opt_out is Some && trimmed(opt_out->0) == OPT_OUT_PHRASE@)
}

/// What is said of an operator's key that gates nothing.
pub const KEY_NOTE: &'static str = " LIGHTTRACK_ADMIN_KEY is set, but it gates nothing while the mode is not `enforced`.";

/// Why the process does not start, and both ways to mend it.
pub open spec fn boot_refusal(admin_key: Option<Seq<char>>) -> Seq<char> {
    let note = if admin_key is Some && !blank(admin_key->0) {
        KEY_NOTE@
    } else {
        ""@
    };
    "refusing to start: LIGHTTRACK_AUTH_MODE is not `enforced`, so every request — including one carrying no bearer token at all — is served as an admin-equivalent principal, and this process holds every provider credential it benchmarks with."@
        + note
        + " Choose one:\n  (a) set LIGHTTRACK_AUTH_MODE=enforced and LIGHTTRACK_ADMIN_KEY=<secret>, then mint per-project keys (POST /v1/projects, then POST /v1/projects/:id/keys); or\n  (b) if this instance is genuinely reachable only from this machine, say so:\n      "@
        + OPT_OUT_ENV@ + "=\""@ + OPT_OUT_PHRASE@ + "\""@
}

/// Decides whether the process may start. An operator's key does not buy a start where credentials are
/// not demanded, but it changes what is said.
pub fn check_boot(mode: AuthMode, admin_key: Option<&str>, opt_out: Option<&str>) -> (r: Result<
    (),
    String,
>)
    ensures
        r is Ok <==> may_boot(mode, crate::event::text_view(opt_out)),
        r is Err ==> r->Err_0@ == boot_refusal(crate::event::text_view(admin_key)),
{
    if mode == AuthMode::Enforced {
        return Ok(());
    }
    if let Some(s) = opt_out {
        if same(s.trim(), OPT_OUT_PHRASE) {
            return Ok(());
        }
    }
    let note = match admin_key {
        Some(k) => {
            proof {
                trimmed_empty_iff_blank(k@);
            }
            if k.trim().is_empty() {
                ""
            } else {
                KEY_NOTE
            }
        },
        None => "",
    };
    let mut m =
        "refusing to start: LIGHTTRACK_AUTH_MODE is not `enforced`, so every request — including one carrying no bearer token at all — is served as an admin-equivalent principal, and this process holds every provider credential it benchmarks with.".to_owned();
    m.append(note);
    m.append(
        " Choose one:\n  (a) set LIGHTTRACK_AUTH_MODE=enforced and LIGHTTRACK_ADMIN_KEY=<secret>, then mint per-project keys (POST /v1/projects, then POST /v1/projects/:id/keys); or\n  (b) if this instance is genuinely reachable only from this machine, say so:\n      ",
    );
    m.append(OPT_OUT_ENV);
    m.append("=\"");
    m.append(OPT_OUT_PHRASE);
    m.append("\"");
    Err(m)
}

// ------------------------------------------------------------------ what a record shows

/// A value is shown whole up to 256 characters; a longer one by its first 256 and a mark.
pub proof fn a_long_value_is_cut(v: &str, r: String)
    requires
        call_ensures(cap, (v,), r),
    ensures
        v@.len() <= 256 ==> r@ == v@,
        v@.len() > 256 ==> r@ == v@.subrange(0, 256) + "[truncated]"@,
{
    if v@.len() > 256 {
        assert(v@.take(256) =~= v@.subrange(0, 256));
    }
}

proof fn parts_stand(parts: Seq<Seq<char>>, i: int)
    requires
        0 <= i < parts.len(),
    ensures
        has_within(spaced(parts), parts[i]),
    decreases parts.len(),
{
    if parts.len() == 1 {
        stands_between(seq![], parts[0], seq![]);
        assert(seq![] + parts[0] + seq![] =~= parts[0]);
    } else {
        let d = parts.drop_last();
        let s = spaced(parts);
        if i < d.len() {
            parts_stand(d, i);
            let p = parts[i];
            assert(d[i] == p);
            let k = choose|k: int| stands_at(spaced(d), p, k);
            assert(s.subrange(k, k + p.len()) =~= spaced(d).subrange(k, k + p.len()));
            assert(stands_at(s, p, k));
        } else {
            stands_between(spaced(d) + " "@, parts[i], seq![]);
            assert(spaced(d) + " "@ + parts[i] + seq![] =~= s);
        }
    }
}

/// A record shows every field that may be shown, with its value, and every header by name with its value
/// withheld.
pub proof fn a_record_shows_what_it_may(fields: &Vec<Field>, headers: &Vec<Field>, r: String, i: int, j: int)
    requires
        call_ensures(render_operator_record, (fields, headers), r),
    ensures
        0 <= i < fields@.len() && fields@[i].value@.len() <= 256 && (fields@[i].name@ == "provider"@
            || fields@[i].name@ == "project"@ || fields@[i].name@ == "route"@ || fields@[i].name@
            == "status"@ || fields@[i].name@ == "reason"@ || fields@[i].name@ == "duration_ms"@)
            ==> has_within(r@, fields@[i].name@ + "="@ + fields@[i].value@),
        0 <= j < headers@.len() ==> has_within(r@, "header."@ + headers@[j].name@ + "=[REDACTED]"@),
{
    let kept = fields@.filter(may_show());
    let shown = kept.map_values(|f: Field| shown_field(f));
    let heads = headers@.map_values(|h: Field| shown_header(h.name@));
    let parts = record_parts(fields@, headers@);
    assert(parts == shown + heads);
    if 0 <= i < fields@.len() && showable(fields@[i].name@) {
        crate::seqs::filter_keeps(fields@, may_show(), i);
        let k = choose|k: int| 0 <= k < kept.len() && kept[k] == fields@[i];
        assert(parts[k] == shown_field(fields@[i]));
        parts_stand(parts, k);
    }
    if 0 <= j < headers@.len() {
        let k = shown.len() + j;
        assert(parts[k] == shown_header(headers@[j].name@));
        parts_stand(parts, k);
        reveal_strlit("[REDACTED]");
        reveal_strlit("=");
        reveal_strlit("=[REDACTED]");
        assert("=[REDACTED]"@ =~= "="@ + "[REDACTED]"@);
        assert(parts[k] =~= "header."@ + headers@[j].name@ + "=[REDACTED]"@);
    }
}

/// The process starts exactly where credentials are demanded or someone wrote out the sentence that says
/// what not demanding them means; an operator's key does not buy a start.
pub proof fn a_start_takes_credentials_or_a_confession(
    mode: AuthMode,
    key: Option<&str>,
    opt_out: Option<&str>,
    r: Result<(), String>,
)
    requires
        call_ensures(check_boot, (mode, key, opt_out), r),
    ensures
        mode is Enforced ==> r is Ok,
        mode is Dev ==> (r is Ok <==> opt_out is Some && trimmed(opt_out->0@)
            == "yes, anyone who can reach this port is an admin"@),
{
}

} // verus!
