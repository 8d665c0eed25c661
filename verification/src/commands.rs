//! The `tally scratchpads …` and `tally todos …` subcommands: from a
//! subcommand, its id and its parsed flags to one store operation, with the
//! flags' defaults and the command line's own refusals. Reading files and
//! printing stay with the caller.
use vstd::prelude::*;
use crate::cli::{
    all_values, flag_views, given_flag, last_bool, last_value, revision_required, value_or_empty, FlagV, Parsed,
    pad_update_parts, pad_revision_check,
};
use crate::comments::{made_comment, norm_target, off_target, on_target, other_id, same_but_comments, Comment, CommentV};
use crate::errors::{Error, Result};
use crate::mcp::{as_pad, as_todo, pad_shaped, read_is, save_is, tail_is, todo_shaped, ToolOut};
use crate::cli::{bool_ptr, github_flag_error, github_switch, parse_bool_ptr, todo_update_request, update_fields};
use crate::todos::{
    after_delete, blocker_added, blocker_removed, blockers_set, completed_as, create_priority, edit_outcome,
    first_todo, fresh_todo, github_check, github_toggled, has_todo, listed, locked_by, never_refused, origin_repo,
    priority_error, priority_ok, same_but_todos, tag_added, tag_removed, tagged, unlock_check, unlocked,
    update_check, updated_with, FilterV, Refusal, Todo, TodoFilter, TodoV, UpdateV,
};
use crate::num::parse_int;
use crate::order::{ascending, keep, views};
use crate::project::{join_path, Project, ProjectV};
use crate::scratchpads::{
    appended_fn, body_set, cleared_fn, edit_check, edited_fn, exported, first_h1, first_pad, found_in, fresh_pad,
    has_pad, match_view, pad_never_refused, pad_outcome, pad_tagged, pad_updated, pads_listed, read_view,
    revision_room, same_but_pads, section_appended_fn, section_check, status_set, tail_of, text_room, title_set,
    EditTarget, Match, PadRefusal, PadV,
};
use crate::text::{cat, from_chars, is_text, to_chars};

verus! {

// ------------------------------------------------------------ flag values
/// A value flag's last value, else the default.
pub open spec fn text_flag(fv: Seq<FlagV>, name: Seq<char>, default: Seq<char>) -> Seq<char> {
    match last_value(fv, name) {
        Some(v) => v,
        None => default,
    }
}

/// A value flag's last value read as an integer, else the default (also
/// when it does not parse).
pub open spec fn int_flag(fv: Seq<FlagV>, name: Seq<char>, default: int) -> int {
    match last_value(fv, name) {
        Some(v) => match parse_int(v) {
            Some(n) => n,
            None => default,
        },
        None => default,
    }
}

/// A boolean flag's last value, else the default.
pub open spec fn bool_flag(fv: Seq<FlagV>, name: Seq<char>, default: bool) -> bool {
    match last_bool(fv, name) {
        Some(b) => b,
        None => default,
    }
}

/// The expected revision given with `--expected-revision`; -1 when absent.
pub open spec fn rev_flag(fv: Seq<FlagV>) -> int {
    int_flag(fv, "expected-revision"@, -1)
}

// ------------------------------------------------------------ scratchpads
pub open spec fn unknown_pad_command_text(sub: Seq<char>) -> Seq<char> {
    "unknown scratchpads subcommand: "@ + sub
}

pub open spec fn bad_target_text(m: Seq<char>) -> Seq<char> {
    "bad --target json: "@ + m
}

/// A revision-guarded write on the named pad that returns it.
pub open spec fn pad_step(
    old: ProjectV,
    new: ProjectV,
    id: Seq<char>,
    rev: int,
    r: Result<ToolOut>,
    check: spec_fn(PadV) -> PadRefusal,
    ok: spec_fn(PadV, PadV) -> bool,
) -> bool {
    pad_shaped(r) && pad_outcome(old, new, id, rev, as_pad(r), check, ok)
}

/// A refusal with this message that changes nothing.
pub open spec fn refused(r: Result<ToolOut>, msg: Seq<char>, old: ProjectV, new: ProjectV) -> bool {
    r matches Err(Error::Other(m)) && m@ == msg && new == old
}

/// What `update` changes: the name, body and tags whose flags were given.
pub open spec fn pad_update_of(fv: Seq<FlagV>, body: Seq<char>) -> spec_fn(PadV, PadV) -> bool {
    pad_updated(
        if given_flag(fv, "name"@) { Some(value_or_empty(fv, "name"@)) } else { None },
        if given_flag(fv, "content"@) || given_flag(fv, "content-file"@) { Some(body) } else { None },
        if given_flag(fv, "tag"@) { Some(all_values(fv, "tag"@)) } else { None },
    )
}

/// What each scratchpads subcommand does once the revision check passed:
/// its one store call with the flags' defaults; an unknown subcommand is
/// refused.
pub open spec fn pad_command_effect(
    sub: Seq<char>,
    id: Seq<char>,
    fv: Seq<FlagV>,
    body: Seq<char>,
    target: core::result::Result<EditTarget, String>,
    old: ProjectV,
    new: ProjectV,
    r: Result<ToolOut>,
) -> bool {
    let cur = old.pads[first_pad(old.pads, id)];
    let rev = rev_flag(fv);
    let name = text_flag(fv, "name"@, ""@);
    if sub == "create"@ {
        r matches Ok(ToolOut::Pad(s)) && fresh_pad(
            s@,
            if name.len() == 0 { first_h1(body) } else { name },
            body,
            all_values(fv, "tag"@),
            old.actor,
        ) && new.pads == old.pads.push(s@) && same_but_pads(old, new)
    } else if sub == "read"@ {
        &&& new == old
        &&& !has_pad(old.pads, id) ==> (r matches Err(Error::NotFound))
        &&& has_pad(old.pads, id) ==> read_is(r, cur, read_view(
            cur.content,
            text_flag(fv, "mode"@, "full"@),
            text_flag(fv, "section-heading"@, ""@),
            int_flag(fv, "offset"@, 0),
            int_flag(fv, "limit"@, 0),
        ))
    } else if sub == "list"@ {
        r matches Ok(ToolOut::Pads(v)) && views(v@) == pads_listed(
            old.pads,
            all_values(fv, "tag"@),
            text_flag(fv, "query"@, ""@),
            bool_flag(fv, "include-archived"@, false),
            int_flag(fv, "offset"@, 0),
            int_flag(fv, "limit"@, 0),
        ) && new == old
    } else if sub == "update"@ {
        pad_step(old, new, id, rev, r, pad_never_refused(), pad_update_of(fv, body))
    } else if sub == "append"@ {
        pad_step(old, new, id, rev, r, pad_never_refused(), body_set(appended_fn(body, bool_flag(fv, "newline"@, false))))
    } else if sub == "append-section"@ {
        pad_step(
            old,
            new,
            id,
            rev,
            r,
            section_check(text_flag(fv, "heading"@, ""@)),
            body_set(section_appended_fn(text_flag(fv, "heading"@, ""@), body)),
        )
    } else if sub == "edit"@ {
        match target {
            Err(m) => refused(r, bad_target_text(m@), old, new),
            Ok(t) => pad_step(
                old,
                new,
                id,
                rev,
                r,
                edit_check(t.kind@, t.section_heading@, t.offset as int, t.limit as int),
                body_set(edited_fn(t.kind@, t.section_heading@, t.offset as int, t.limit as int, body)),
            ),
        }
    } else if sub == "rename"@ {
        pad_step(old, new, id, rev, r, pad_never_refused(), title_set(name))
    } else if sub == "find"@ {
        &&& new == old
        &&& !has_pad(old.pads, id) ==> (r matches Err(Error::NotFound))
        &&& has_pad(old.pads, id) ==> (r matches Ok(ToolOut::Matches(v)) && v@.map_values(|m: Match| match_view(m))
            == found_in(
            cur.content,
            text_flag(fv, "query"@, ""@),
            text_flag(fv, "scope"@, "all"@),
            bool_flag(fv, "case-sensitive"@, false),
            int_flag(fv, "context-lines"@, 0),
        ))
    } else if sub == "tail"@ {
        &&& new == old
        &&& !has_pad(old.pads, id) ==> (r matches Err(Error::NotFound))
        &&& has_pad(old.pads, id) ==> tail_is(r, tail_of(cur.content, int_flag(fv, "lines"@, 10)))
    } else if sub == "clear"@ {
        pad_step(old, new, id, rev, r, pad_never_refused(), body_set(cleared_fn()))
    } else if sub == "archive"@ {
        pad_step(old, new, id, rev, r, pad_never_refused(), status_set("archived"@))
    } else if sub == "unarchive"@ {
        pad_step(old, new, id, rev, r, pad_never_refused(), status_set("active"@))
    } else if sub == "delete"@ {
        if !bool_flag(fv, "confirm"@, false) {
            refused(r, "delete requires --confirm"@, old, new)
        } else {
            &&& new.todos == old.todos && new.actor == old.actor && new.path == old.path
            &&& !has_pad(old.pads, id) ==> (r matches Err(Error::NotFound) && new == old)
            &&& has_pad(old.pads, id) && rev >= 0 && cur.revision != rev ==> (r matches Err(Error::RevisionMismatch)
                && new == old)
            &&& has_pad(old.pads, id) && !(rev >= 0 && cur.revision != rev) ==> (r matches Ok(ToolOut::Nothing)
                && new.pads == old.pads.remove(first_pad(old.pads, id)) && new.comments == keep(
                old.comments,
                off_target(norm_target(id)),
            ))
        }
    } else if sub == "save-to-file"@ {
        &&& new == old
        &&& !has_pad(old.pads, id) ==> (r matches Err(Error::NotFound))
        &&& has_pad(old.pads, id) ==> save_is(r, exported(cur), join_path(old.path, text_flag(fv, "path"@, ""@)))
    } else if sub == "load-from-file"@ {
        r matches Ok(ToolOut::Load(path)) && path@ == join_path(old.path, text_flag(fv, "path"@, ""@)) && new == old
    } else if sub == "tags"@ {
        r matches Ok(ToolOut::Tags(v)) && ascending(v.deep_view()) && (forall|y: Seq<char>|
            v.deep_view().contains(y) <==> pad_tagged(old.pads, y)) && new == old
    } else {
        refused(r, unknown_pad_command_text(sub), old, new)
    }
}

/// What a scratchpads subcommand does: a guarded subcommand given no
/// expected revision is refused first, changing nothing; every other one is
/// as `pad_command_effect` says.
pub open spec fn pad_command_done(
    sub: Seq<char>,
    id: Seq<char>,
    fv: Seq<FlagV>,
    body: Seq<char>,
    target: core::result::Result<EditTarget, String>,
    old: ProjectV,
    new: ProjectV,
    r: Result<ToolOut>,
) -> bool {
    if revision_required(sub) && rev_flag(fv) < 0 {
        refused(r, "--expected-revision is required for "@ + sub, old, new)
    } else {
        pad_command_effect(sub, id, fv, body, target, old, new, r)
    }
}

fn pad_out(r: Result<crate::scratchpads::Scratchpad>) -> (o: Result<ToolOut>)
    ensures
        pad_shaped(o),
        as_pad(o) == r,
{
    match r {
        Ok(s) => Ok(ToolOut::Pad(s)),
        Err(e) => Err(e),
    }
}

fn other(msg: String) -> (r: Result<ToolOut>)
    ensures
        r matches Err(Error::Other(m)) && m@ == msg@,
{
    Err(Error::Other(msg))
}

/// Runs one scratchpads subcommand on the project. `body` is the text of
/// `--content` or `--content-file`; `target` is `--target` as parsed JSON,
/// or the parse error. A file to load from is only resolved here: the caller
/// reads it and imports its text.
#[verifier::spinoff_prover]
#[verifier::rlimit(100)]
pub fn run_pad_command(
    p: &mut Project,
    sub: &str,
    id: &str,
    flags: &Parsed,
    body: String,
    target: core::result::Result<EditTarget, String>,
) -> (r: Result<ToolOut>)
    requires
        revision_room(old(p)@.pads, id@),
        text_room(old(p)@.pads, id@),
    ensures
        pad_command_done(sub@, id@, flag_views(flags.flags@), body@, target, old(p)@, final(p)@, r),
{
    proof {
        reveal_strlit("");
    }
    let rev = flags.integer("expected-revision", -1);
    match pad_revision_check(sub, rev) {
        Err(m) => return other(m),
        Ok(()) => {},
    }
    if is_text(sub, "create") {
        let name = flags.str("name", "");
        pad_out(p.create_scratchpad(name.as_str(), body.as_str(), flags.multi("tag")))
    } else if is_text(sub, "read") {
        let mode = flags.str("mode", "full");
        let heading = flags.str("section-heading", "");
        match p.read_scratchpad(id, mode.as_str(), heading.as_str(), flags.integer("offset", 0), flags.integer("limit", 0)) {
            Ok((s, t)) => Ok(ToolOut::Read(s, t)),
            Err(e) => Err(e),
        }
    } else if is_text(sub, "list") {
        let query = flags.str("query", "");
        match p.list_scratchpads(
            &flags.multi("tag"),
            query.as_str(),
            flags.boolean("include-archived", false),
            flags.integer("offset", 0),
            flags.integer("limit", 0),
        ) {
            Ok(v) => Ok(ToolOut::Pads(v)),
            Err(e) => Err(e),
        }
    } else if is_text(sub, "update") {
        let (name, content, tags) = pad_update_parts(flags, body);
        let r = match (&name, &content) {
            (Some(n), Some(c)) => p.update_scratchpad(id, rev, Some(n.as_str()), Some(c.as_str()), tags),
            (Some(n), None) => p.update_scratchpad(id, rev, Some(n.as_str()), None, tags),
            (None, Some(c)) => p.update_scratchpad(id, rev, None, Some(c.as_str()), tags),
            (None, None) => p.update_scratchpad(id, rev, None, None, tags),
        };
        pad_out(r)
    } else if is_text(sub, "append") {
        pad_out(p.append_scratchpad(id, body.as_str(), rev, flags.boolean("newline", false)))
    } else if is_text(sub, "append-section") {
        let heading = flags.str("heading", "");
        pad_out(p.append_section(id, heading.as_str(), body.as_str(), rev))
    } else if is_text(sub, "edit") {
        match target {
            Err(m) => other(cat("bad --target json: ", m.as_str())),
            Ok(t) => pad_out(p.edit_scratchpad(id, t, body.as_str(), rev)),
        }
    } else if is_text(sub, "rename") {
        let name = flags.str("name", "");
        pad_out(p.rename_scratchpad(id, name.as_str(), rev))
    } else if is_text(sub, "find") {
        let query = flags.str("query", "");
        let scope = flags.str("scope", "all");
        match p.find_in_scratchpad(
            id,
            query.as_str(),
            scope.as_str(),
            flags.boolean("case-sensitive", false),
            flags.integer("context-lines", 0),
        ) {
            Ok(v) => Ok(ToolOut::Matches(v)),
            Err(e) => Err(e),
        }
    } else if is_text(sub, "tail") {
        match p.tail_scratchpad(id, flags.integer("lines", 10)) {
            Ok((t, k)) => Ok(ToolOut::Tail(t, k)),
            Err(e) => Err(e),
        }
    } else if is_text(sub, "clear") {
        pad_out(p.clear_scratchpad(id, rev))
    } else if is_text(sub, "archive") {
        pad_out(p.archive_scratchpad(id, rev))
    } else if is_text(sub, "unarchive") {
        pad_out(p.unarchive_scratchpad(id, rev))
    } else if is_text(sub, "delete") {
        if !flags.boolean("confirm", false) {
            other(from_chars(&to_chars("delete requires --confirm")))
        } else {
            match p.delete_scratchpad(id, rev) {
                Ok(()) => Ok(ToolOut::Nothing),
                Err(e) => Err(e),
            }
        }
    } else if is_text(sub, "save-to-file") {
        let path = flags.str("path", "");
        match p.export_scratchpad(id) {
            Ok(t) => Ok(ToolOut::Save(t, p.resolve_external(path.as_str()))),
            Err(e) => Err(e),
        }
    } else if is_text(sub, "load-from-file") {
        let path = flags.str("path", "");
        Ok(ToolOut::Load(p.resolve_external(path.as_str())))
    } else if is_text(sub, "tags") {
        match p.scratchpad_tags() {
            Ok(v) => Ok(ToolOut::Tags(v)),
            Err(e) => Err(e),
        }
    } else {
        other(cat("unknown scratchpads subcommand: ", sub))
    }
}

/// What a plain-text read prints: the text on its own line, then, for a
/// full read of a pad with comments, a "Comments" section listing them.
pub open spec fn pad_read_doc(text: Seq<char>, mode: Seq<char>, cs: Seq<CommentV>) -> Seq<char> {
    if mode == "full"@ && cs.len() > 0 {
        text + "\n"@ + "\n---\n## Comments\n\n"@ + crate::cli::comments_doc(cs)
    } else {
        text + "\n"@
    }
}

/// The plain-text output of `scratchpads read` for the pad `id`, read with
/// `mode`, whose view is `text`.
pub fn pad_read_text(p: &Project, id: &str, mode: &str, text: &str) -> (r: String)
    ensures
        r@ == pad_read_doc(text@, mode@, keep(p@.comments, on_target(norm_target(id@)))),
{
    proof {
        reveal_strlit("full");
    }
    let line = cat(text, "\n");
    let cs = match p.list_comments(id) {
        Ok(cs) => cs,
        Err(_) => Vec::new(),
    };
    if is_text(mode, "full") && cs.len() > 0 {
        let head = cat(line.as_str(), "\n---\n## Comments\n\n");
        cat(head.as_str(), crate::cli::render_comments(&cs).as_str())
    } else {
        line
    }
}

// ------------------------------------------------------------ todos
/// The first value given, else empty.
pub open spec fn first_value(vs: Seq<Seq<char>>) -> Seq<char> {
    if vs.len() > 0 {
        vs[0]
    } else {
        Seq::empty()
    }
}

pub open spec fn unknown_todo_command_text(sub: Seq<char>) -> Seq<char> {
    "unknown todos subcommand: "@ + sub
}

/// The GitHub switch `--github on|off` asks for, when given.
pub open spec fn switch_of(fv: Seq<FlagV>) -> Option<bool> {
    if given_flag(fv, "github"@) {
        github_switch(value_or_empty(fv, "github"@))
    } else {
        None
    }
}

/// The filter `todos list` builds from its flags.
pub open spec fn list_filter(fv: Seq<FlagV>) -> FilterV {
    FilterV {
        status: text_flag(fv, "status"@, ""@),
        completed: bool_ptr(text_flag(fv, "completed"@, ""@)),
        is_blocked: bool_ptr(text_flag(fv, "is-blocked"@, ""@)),
        priority: text_flag(fv, "priority"@, ""@),
        query: text_flag(fv, "query"@, ""@),
        tags: all_values(fv, "tag"@),
        sort: text_flag(fv, "sort"@, ""@),
        offset: int_flag(fv, "offset"@, 0),
        limit: int_flag(fv, "limit"@, 0),
    }
}

/// An edit of the named todo that returns it.
pub open spec fn todo_step(
    old: ProjectV,
    new: ProjectV,
    id: Seq<char>,
    r: Result<ToolOut>,
    check: spec_fn(TodoV) -> Refusal,
    ok: spec_fn(TodoV, TodoV) -> bool,
) -> bool {
    todo_shaped(r) && edit_outcome(old, new, id, as_todo(r), check, ok)
}

/// The todo as it stands, or NotFound.
pub open spec fn todo_got(old: ProjectV, new: ProjectV, id: Seq<char>, r: Result<ToolOut>) -> bool {
    &&& new == old
    &&& has_todo(old.todos, id) ==> (r matches Ok(ToolOut::Todo(t)) && t@ == old.todos[first_todo(old.todos, id)])
    &&& !has_todo(old.todos, id) ==> (r matches Err(Error::NotFound))
}

/// `todos update` through the project state `mid` between its two steps:
/// the field edit when fields were given (its failure ends the command),
/// then the GitHub switch when one was given; with neither, the todo as it
/// stands.
pub open spec fn update_via(
    old: ProjectV,
    mid: ProjectV,
    new: ProjectV,
    id: Seq<char>,
    fields: Option<UpdateV>,
    switch: Option<bool>,
    origin: Option<Seq<char>>,
    first: Result<Todo>,
    r: Result<ToolOut>,
) -> bool {
    &&& match fields {
        Some(u) => edit_outcome(old, mid, id, first, update_check(u), updated_with(u)),
        None => mid == old,
    }
    &&& if fields is Some && first is Err {
        todo_shaped(r) && as_todo(r) == first && new == mid
    } else {
        match switch {
            Some(on) => todo_step(mid, new, id, r, github_check(on, origin_repo(origin)), github_toggled(on, origin_repo(origin))),
            None => if fields is Some {
                todo_shaped(r) && as_todo(r) == first && new == mid
            } else {
                todo_got(old, new, id, r)
            },
        }
    }
}

/// What each todos subcommand does: its one store call (two for `update`)
/// with the flags' defaults; a bad `--github` value and an unknown
/// subcommand are refused, changing nothing. `owner` and `pid` are whom a
/// lock is taken for; `origin` is the project's origin remote URL.
pub open spec fn todo_command_done(
    sub: Seq<char>,
    id: Seq<char>,
    fv: Seq<FlagV>,
    body: Seq<char>,
    owner: Seq<char>,
    pid: int,
    origin: Option<Seq<char>>,
    old: ProjectV,
    new: ProjectV,
    r: Result<ToolOut>,
) -> bool {
    let release = bool_flag(fv, "release-lock"@, true);
    let priority = text_flag(fv, "priority"@, ""@);
    if sub == "create"@ {
        &&& same_but_todos(old, new)
        &&& !priority_ok(priority) ==> refused(r, priority_error(priority), old, new)
        &&& priority_ok(priority) ==> (r matches Ok(ToolOut::Todo(t)) && fresh_todo(
            t@,
            text_flag(fv, "title"@, ""@),
            body,
            create_priority(priority),
            all_values(fv, "tag"@),
            old.actor,
        ) && new.todos == old.todos.push(t@))
    } else if sub == "list"@ {
        r matches Ok(ToolOut::Todos(v)) && views(v@) == listed(old.todos, list_filter(fv)) && new == old
    } else if sub == "get"@ {
        todo_got(old, new, id, r)
    } else if sub == "update"@ {
        let gv = value_or_empty(fv, "github"@);
        if given_flag(fv, "github"@) && github_switch(gv) is None {
            refused(r, github_flag_error(gv), old, new)
        } else {
            exists|mid: ProjectV, first: Result<Todo>| #[trigger] update_via(
                old,
                mid,
                new,
                id,
                update_fields(fv, body),
                switch_of(fv),
                origin,
                first,
                r,
            )
        }
    } else if sub == "delete"@ {
        &&& new.pads == old.pads && new.actor == old.actor && new.path == old.path
        &&& !has_todo(old.todos, id) ==> (r matches Err(Error::NotFound) && new == old)
        &&& has_todo(old.todos, id) ==> (r matches Ok(ToolOut::Nothing) && new.todos == after_delete(old.todos, id)
            && new.comments == keep(old.comments, off_target(norm_target(id))))
    } else if sub == "complete"@ {
        todo_step(old, new, id, r, never_refused(), completed_as(true, release))
    } else if sub == "incomplete"@ {
        todo_step(old, new, id, r, never_refused(), completed_as(false, release))
    } else if sub == "add-tag"@ {
        todo_step(old, new, id, r, never_refused(), tag_added(first_value(all_values(fv, "tag"@))))
    } else if sub == "remove-tag"@ {
        todo_step(old, new, id, r, never_refused(), tag_removed(first_value(all_values(fv, "tag"@))))
    } else if sub == "set-blockers"@ {
        todo_step(old, new, id, r, never_refused(), blockers_set(all_values(fv, "blocker"@)))
    } else if sub == "add-blocker"@ {
        todo_step(old, new, id, r, never_refused(), blocker_added(first_value(all_values(fv, "blocker"@))))
    } else if sub == "remove-blocker"@ {
        todo_step(old, new, id, r, never_refused(), blocker_removed(first_value(all_values(fv, "blocker"@))))
    } else if sub == "lock"@ {
        todo_step(old, new, id, r, never_refused(), locked_by(owner, pid))
    } else if sub == "unlock"@ {
        todo_step(old, new, id, r, unlock_check(owner), unlocked())
    } else if sub == "tags"@ {
        r matches Ok(ToolOut::Tags(v)) && ascending(v.deep_view()) && (forall|y: Seq<char>|
            v.deep_view().contains(y) <==> tagged(old.todos, y)) && new == old
    } else {
        refused(r, unknown_todo_command_text(sub), old, new)
    }
}

fn todo_out(r: Result<Todo>) -> (o: Result<ToolOut>)
    ensures
        todo_shaped(o),
        as_todo(o) == r,
{
    match r {
        Ok(t) => Ok(ToolOut::Todo(t)),
        Err(e) => Err(e),
    }
}

fn first_of(vs: &Vec<String>) -> (r: String)
    ensures
        r@ == first_value(vs.deep_view()),
{
    let r = crate::cli::first(vs);
    proof {
        if vs.len() > 0 {
            assert(vs.deep_view()[0] == vs@[0]@);
        }
    }
    r
}

/// `todos update`: the field edit and then the GitHub switch, as asked.
fn run_todo_update(p: &mut Project, id: &str, flags: &Parsed, body: String, origin: Option<String>) -> (r: Result<ToolOut>)
    ensures
        ({
            let fv = flag_views(flags.flags@);
            let gv = value_or_empty(fv, "github"@);
            if given_flag(fv, "github"@) && github_switch(gv) is None {
                refused(r, github_flag_error(gv), old(p)@, final(p)@)
            } else {
                exists|mid: ProjectV, first: Result<Todo>| #[trigger] update_via(
                    old(p)@,
                    mid,
                    final(p)@,
                    id@,
                    update_fields(fv, body@),
                    switch_of(fv),
                    origin.deep_view(),
                    first,
                    r,
                )
            }
        }),
{
    let ghost old_p = p@;
    let ghost fv = flag_views(flags.flags@);
    let ghost origin_v = origin.deep_view();
    let (fields, switch) = match todo_update_request(flags, body) {
        Err(m) => return Err(Error::Other(m)),
        Ok(x) => x,
    };
    let has_fields = fields.is_some();
    let first: Result<Todo> = match fields {
        Some(u) => p.update_todo(id, u),
        None => Err(Error::NotFound),
    };
    let ghost mid = p@;
    if has_fields && first.is_err() {
        let r = todo_out(first);
        assert(update_via(old_p, mid, p@, id@, update_fields(fv, body@), switch, origin_v, first, r));
        return r;
    }
    let r = match switch {
        Some(on) => todo_out(p.set_github(id, on, origin)),
        None => if has_fields {
            todo_out(first)
        } else {
            todo_out(p.get_todo(id))
        },
    };
    assert(update_via(old_p, mid, p@, id@, update_fields(fv, body@), switch, origin_v, first, r));
    r
}

/// Runs one todos subcommand on the project. `body` is the text of `--body`
/// or `--body-file`; `owner` and `pid` are whom a lock is taken for;
/// `origin` is the project's origin remote URL, which a first `--github on`
/// links to.
#[verifier::spinoff_prover]
#[verifier::rlimit(100)]
pub fn run_todo_command(
    p: &mut Project,
    sub: &str,
    id: &str,
    flags: &Parsed,
    body: String,
    owner: &str,
    pid: i64,
    origin: Option<String>,
) -> (r: Result<ToolOut>)
    ensures
        todo_command_done(sub@, id@, flag_views(flags.flags@), body@, owner@, pid as int, origin.deep_view(), old(p)@, final(p)@, r),
{
    proof {
        reveal_strlit("");
    }
    let release = flags.boolean("release-lock", true);
    if is_text(sub, "create") {
        let title = flags.str("title", "");
        let priority = flags.str("priority", "");
        match p.create_todo(title.as_str(), body.as_str(), priority.as_str(), flags.multi("tag")) {
            Ok(t) => Ok(ToolOut::Todo(t)),
            Err(e) => Err(e),
        }
    } else if is_text(sub, "list") {
        let f = TodoFilter {
            status: flags.str("status", ""),
            completed: parse_bool_ptr(flags.str("completed", "").as_str()),
            is_blocked: parse_bool_ptr(flags.str("is-blocked", "").as_str()),
            priority: flags.str("priority", ""),
            query: flags.str("query", ""),
            tags: flags.multi("tag"),
            sort: flags.str("sort", ""),
            offset: flags.integer("offset", 0),
            limit: flags.integer("limit", 0),
        };
        match p.list_todos(f) {
            Ok(v) => Ok(ToolOut::Todos(v)),
            Err(e) => Err(e),
        }
    } else if is_text(sub, "get") {
        todo_out(p.get_todo(id))
    } else if is_text(sub, "update") {
        run_todo_update(p, id, flags, body, origin)
    } else if is_text(sub, "delete") {
        match p.delete_todo(id) {
            Ok(()) => Ok(ToolOut::Nothing),
            Err(e) => Err(e),
        }
    } else if is_text(sub, "complete") {
        todo_out(p.complete_todo(id, release))
    } else if is_text(sub, "incomplete") {
        todo_out(p.incomplete_todo(id, release))
    } else if is_text(sub, "add-tag") {
        let tag = first_of(&flags.multi("tag"));
        todo_out(p.add_todo_tag(id, tag.as_str()))
    } else if is_text(sub, "remove-tag") {
        let tag = first_of(&flags.multi("tag"));
        todo_out(p.remove_todo_tag(id, tag.as_str()))
    } else if is_text(sub, "set-blockers") {
        todo_out(p.set_blockers(id, flags.multi("blocker")))
    } else if is_text(sub, "add-blocker") {
        let b = first_of(&flags.multi("blocker"));
        todo_out(p.add_blocker(id, b.as_str()))
    } else if is_text(sub, "remove-blocker") {
        let b = first_of(&flags.multi("blocker"));
        todo_out(p.remove_blocker(id, b.as_str()))
    } else if is_text(sub, "lock") {
        todo_out(p.lock_todo(id, owner, pid))
    } else if is_text(sub, "unlock") {
        todo_out(p.unlock_todo(id, owner))
    } else if is_text(sub, "tags") {
        match p.todo_tags() {
            Ok(v) => Ok(ToolOut::Tags(v)),
            Err(e) => Err(e),
        }
    } else {
        other(cat("unknown todos subcommand: ", sub))
    }
}

// ------------------------------------------------------------ comments
/// What a comments subcommand gives back.
pub enum CommentOut {
    Added(Comment),
    Listed(Vec<Comment>),
    Deleted,
}

pub open spec fn comment_refused(r: Result<CommentOut>, msg: Seq<char>, old: ProjectV, new: ProjectV) -> bool {
    r matches Err(Error::Other(m)) && m@ == msg && new == old
}

pub open spec fn unknown_comment_command_text(sub: Seq<char>) -> Seq<char> {
    "unknown comments subcommand: "@ + sub
}

/// Some comment carries this id.
pub open spec fn has_comment(cs: Seq<CommentV>, id: Seq<char>) -> bool {
    exists|i: int| 0 <= i < cs.len() && #[trigger] cs[i].id == id
}

/// What each comments subcommand does: `add` notes `--body` (required) on
/// the target under `--section`; `list` gives the target's comments;
/// `delete` removes a comment by id. Each needs its leading argument; a
/// missing one, and an unknown subcommand, are refused, changing nothing.
pub open spec fn comment_command_done(
    sub: Seq<char>,
    id: Seq<char>,
    fv: Seq<FlagV>,
    old: ProjectV,
    new: ProjectV,
    r: Result<CommentOut>,
) -> bool {
    let body = text_flag(fv, "body"@, ""@);
    if sub == "add"@ {
        if id.len() == 0 {
            comment_refused(r, "usage: tally comments add <target> --body <text> [--section <heading>]"@, old, new)
        } else if body.len() == 0 {
            comment_refused(r, "comment body is required (--body)"@, old, new)
        } else {
            r matches Ok(CommentOut::Added(c)) && made_comment(
                c@,
                old.actor,
                id,
                text_flag(fv, "section"@, ""@),
                "note"@,
                body,
            ) && new.comments == old.comments.push(c@) && same_but_comments(old, new)
        }
    } else if sub == "list"@ {
        if id.len() == 0 {
            comment_refused(r, "usage: tally comments list <target>"@, old, new)
        } else {
            r matches Ok(CommentOut::Listed(v)) && views(v@) == keep(old.comments, on_target(norm_target(id))) && new == old
        }
    } else if sub == "delete"@ {
        if id.len() == 0 {
            comment_refused(r, "usage: tally comments delete <comment-id>"@, old, new)
        } else {
            &&& same_but_comments(old, new)
            &&& has_comment(old.comments, id) ==> (r matches Ok(CommentOut::Deleted) && new.comments == keep(
                old.comments,
                other_id(id),
            ))
            &&& !has_comment(old.comments, id) ==> (r matches Err(Error::NotFound) && new == old)
        }
    } else {
        comment_refused(r, unknown_comment_command_text(sub), old, new)
    }
}

fn comment_other(msg: &str) -> (r: Result<CommentOut>)
    ensures
        r matches Err(Error::Other(m)) && m@ == msg@,
{
    Err(Error::Other(from_chars(&to_chars(msg))))
}

/// Runs one comments subcommand on the project.
pub fn run_comment_command(p: &mut Project, sub: &str, id: &str, flags: &Parsed) -> (r: Result<CommentOut>)
    ensures
        comment_command_done(sub@, id@, flag_views(flags.flags@), old(p)@, final(p)@, r),
{
    proof {
        reveal_strlit("");
    }
    let body = flags.str("body", "");
    if is_text(sub, "add") {
        if crate::text::is_blank(id) {
            comment_other("usage: tally comments add <target> --body <text> [--section <heading>]")
        } else if crate::text::is_blank(body.as_str()) {
            comment_other("comment body is required (--body)")
        } else {
            let section = flags.str("section", "");
            match p.add_comment(id, section.as_str(), body.as_str()) {
                Ok(c) => Ok(CommentOut::Added(c)),
                Err(e) => Err(e),
            }
        }
    } else if is_text(sub, "list") {
        if crate::text::is_blank(id) {
            comment_other("usage: tally comments list <target>")
        } else {
            match p.list_comments(id) {
                Ok(v) => Ok(CommentOut::Listed(v)),
                Err(e) => Err(e),
            }
        }
    } else if is_text(sub, "delete") {
        if crate::text::is_blank(id) {
            comment_other("usage: tally comments delete <comment-id>")
        } else {
            match p.delete_comment(id) {
                Ok(()) => Ok(CommentOut::Deleted),
                Err(e) => Err(e),
            }
        }
    } else {
        Err(Error::Other(cat("unknown comments subcommand: ", sub)))
    }
}

} // verus!
