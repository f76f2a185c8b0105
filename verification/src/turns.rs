use vstd::prelude::*;
use crate::codec::json_is_str;
use crate::json::Json;
use crate::strutil::{spec_starts_with, spec_trim, starts_with, trim};

verus! {

// ---------------------------------------------------------------------------
// Turn construction: a user message and its attachments become the
// input list of a turn, and the access mode decides the sandbox the
// turn runs under.
// ---------------------------------------------------------------------------

/// The sandbox a turn runs under, decided by the access mode: full
/// access drops the sandbox, read-only locks it, and any other value —
/// the default "current" included — confines writes to the workspace's
/// own path with network access on.
pub fn sandbox_policy_json(access_mode: &str, workspace_path: &str) -> (r: Json)
    ensures
        access_mode@ == "full-access"@ ==> (r matches Json::Obj(f) && f@.len() == 1 && f@[0].0@
            == "type"@ && json_is_str(f@[0].1, "dangerFullAccess"@)),
        access_mode@ == "read-only"@ ==> (r matches Json::Obj(f) && f@.len() == 1 && f@[0].0@
            == "type"@ && json_is_str(f@[0].1, "readOnly"@)),
        access_mode@ != "full-access"@ && access_mode@ != "read-only"@ ==> (r matches Json::Obj(f)
            && f@.len() == 3 && f@[0].0@ == "type"@ && json_is_str(f@[0].1, "workspaceWrite"@)
            && f@[1].0@ == "writableRoots"@ && (f@[1].1 matches Json::Arr(roots) && roots@.len()
            == 1 && json_is_str(roots@[0], workspace_path@)) && f@[2].0@ == "networkAccess"@ && (
        f@[2].1 matches Json::Bool(b) && b == true)),
{
    proof {
        reveal_strlit("full-access");
        reveal_strlit("read-only");
        assert("full-access"@.len() == 11);
        assert("read-only"@.len() == 9);
    }
    let mut f: Vec<(String, Json)> = Vec::new();
    if crate::strutil::str_eq(access_mode, "full-access") {
        f.push((String::from_str("type"), Json::Str(String::from_str("dangerFullAccess"))));
        Json::Obj(f)
    } else if crate::strutil::str_eq(access_mode, "read-only") {
        f.push((String::from_str("type"), Json::Str(String::from_str("readOnly"))));
        Json::Obj(f)
    } else {
        f.push((String::from_str("type"), Json::Str(String::from_str("workspaceWrite"))));
        let mut roots: Vec<Json> = Vec::new();
        roots.push(Json::Str(String::from_str(workspace_path)));
        f.push((String::from_str("writableRoots"), Json::Arr(roots)));
        f.push((String::from_str("networkAccess"), Json::Bool(true)));
        Json::Obj(f)
    }
}

/// The approval policy a turn runs under: full access asks never, every
/// other mode asks on request.
pub fn approval_policy_for(access_mode: &str) -> (r: String)
    ensures
        access_mode@ == "full-access"@ ==> r@ == "never"@,
        access_mode@ != "full-access"@ ==> r@ == "on-request"@,
{
    if crate::strutil::str_eq(access_mode, "full-access") {
        String::from_str("never")
    } else {
        String::from_str("on-request")
    }
}

/// True when a trimmed attachment is a remote or inline image reference
/// rather than a local path.
pub open spec fn image_is_remote(p: Seq<char>) -> bool {
    ||| spec_starts_with(p, "data:"@)
    ||| spec_starts_with(p, "http://"@)
    ||| spec_starts_with(p, "https://"@)
}

/// The attachments a turn keeps: each trimmed, blanks dropped, each
/// classified as remote or local.
pub open spec fn image_items(images: Seq<String>) -> Seq<(bool, Seq<char>)>
    decreases images.len(),
{
    if images.len() == 0 {
        Seq::<(bool, Seq<char>)>::empty()
    } else {
        let rest = image_items(images.drop_last());
        let t = spec_trim(images.last()@);
        if t.len() == 0 {
            rest
        } else {
            rest.push((image_is_remote(t), t))
        }
    }
}

/// The shape of one attachment entry in the input list.
pub open spec fn image_item_matches(j: Json, it: (bool, Seq<char>)) -> bool {
    &&& j matches Json::Obj(f)
    &&& f@.len() == 2
    &&& f@[0].0@ == "type"@
    &&& json_is_str(
        f@[0].1,
        if it.0 {
            "image"@
        } else {
            "localImage"@
        },
    )
    &&& f@[1].0@ == (if it.0 {
        "url"@
    } else {
        "path"@
    })
    &&& json_is_str(f@[1].1, it.1)
}

/// The shape of the text entry in the input list.
pub open spec fn text_item_matches(j: Json, t: Seq<char>) -> bool {
    &&& j matches Json::Obj(f)
    &&& f@.len() == 2
    &&& f@[0].0@ == "type"@
    &&& json_is_str(f@[0].1, "text"@)
    &&& f@[1].0@ == "text"@
    &&& json_is_str(f@[1].1, t)
}

/// How many entries open the list before the attachments.
pub open spec fn text_count(text: Seq<char>) -> int {
    if spec_trim(text).len() > 0 {
        1int
    } else {
        0int
    }
}

/// Builds a turn's input list: the trimmed free text when any is left,
/// then each non-blank attachment as a remote or local image entry. A
/// turn with nothing to say is rejected.
pub fn build_turn_input(text: &str, images: &Option<Vec<String>>) -> (r: Result<
    Vec<Json>,
    String,
>)
    ensures
        ({
            let t = spec_trim(text@);
            let imgs = match *images {
                Option::Some(v) => image_items(v@),
                Option::None => Seq::<(bool, Seq<char>)>::empty(),
            };
            match r {
                Ok(items) => {
                    &&& t.len() + imgs.len() > 0
                    &&& items@.len() == text_count(text@) + imgs.len()
                    &&& (t.len() > 0 ==> text_item_matches(items@[0], t))
                    &&& forall|k: int|
                        0 <= k < imgs.len() ==> image_item_matches(
                            #[trigger] items@[text_count(text@) + k],
                            imgs[k],
                        )
                },
                Err(m) => t.len() == 0 && imgs.len() == 0 && m@ == "empty user message"@,
            }
        }),
{
    let mut items: Vec<Json> = Vec::new();
    let trimmed = trim(text);
    if trimmed.unicode_len() > 0 {
        let mut f: Vec<(String, Json)> = Vec::new();
        f.push((String::from_str("type"), Json::Str(String::from_str("text"))));
        f.push((String::from_str("text"), Json::Str(trimmed)));
        items.push(Json::Obj(f));
    }
    let ghost off = text_count(text@);
    match images {
        Option::Some(paths) => {
            let mut i: usize = 0;
            proof {
                assert(paths@.subrange(0, 0) =~= Seq::<String>::empty());
            }
            while i < paths.len()
                invariant
                    i <= paths@.len(),
                    off == text_count(text@),
                    items@.len() == off + image_items(paths@.subrange(0, i as int)).len(),
                    spec_trim(text@).len() > 0 ==> off == 1 && text_item_matches(
                        items@[0],
                        spec_trim(text@),
                    ),
                    spec_trim(text@).len() == 0 ==> off == 0,
                    forall|k: int|
                        0 <= k < image_items(paths@.subrange(0, i as int)).len()
                            ==> image_item_matches(
                            #[trigger] items@[off + k],
                            image_items(paths@.subrange(0, i as int))[k],
                        ),
                decreases paths@.len() - i,
            {
                let ghost pre = paths@.subrange(0, i as int);
                let ghost pre2 = paths@.subrange(0, i + 1);
                proof {
                    assert(pre2.drop_last() =~= pre);
                    assert(pre2.last() == paths@[i as int]);
                }
                let t = trim(paths[i].as_str());
                if t.unicode_len() > 0 {
                    let remote = starts_with(t.as_str(), "data:") || starts_with(
                        t.as_str(),
                        "http://",
                    ) || starts_with(t.as_str(), "https://");
                    let mut f: Vec<(String, Json)> = Vec::new();
                    if remote {
                        f.push((String::from_str("type"), Json::Str(String::from_str("image"))));
                        f.push((String::from_str("url"), Json::Str(t)));
                    } else {
                        f.push((
                            String::from_str("type"),
                            Json::Str(String::from_str("localImage")),
                        ));
                        f.push((String::from_str("path"), Json::Str(t)));
                    }
                    items.push(Json::Obj(f));
                }
                i += 1;
            }
            proof {
                assert(paths@.subrange(0, paths@.len() as int) =~= paths@);
            }
        },
        Option::None => {},
    }
    if items.len() == 0 {
        return Err(String::from_str("empty user message"));
    }
    Ok(items)
}

/// Assembles the parameters of a turn request: the thread, the input
/// list, the workspace path as working directory, the approval and
/// sandbox policies, and the optional model and effort choices.
pub fn build_turn_params(
    thread_id: &str,
    input: Vec<Json>,
    cwd: &str,
    approval_policy: String,
    sandbox_policy: Json,
    model: Option<String>,
    effort: Option<String>,
) -> (r: Json)
    ensures
        r matches Json::Obj(f) && {
            &&& f@.len() == 7
            &&& f@[0].0@ == "threadId"@ && json_is_str(f@[0].1, thread_id@)
            &&& f@[1].0@ == "input"@
            &&& f@[1].1 matches Json::Arr(items) && items@ == input@
            &&& f@[2].0@ == "cwd"@ && json_is_str(f@[2].1, cwd@)
            &&& f@[3].0@ == "approvalPolicy"@ && json_is_str(f@[3].1, approval_policy@)
            &&& f@[4].0@ == "sandboxPolicy"@ && f@[4].1 == sandbox_policy
            &&& f@[5].0@ == "model"@ && crate::codec::json_opt_str(
                f@[5].1,
                crate::codec::opt_str_v(model),
            )
            &&& f@[6].0@ == "effort"@ && crate::codec::json_opt_str(
                f@[6].1,
                crate::codec::opt_str_v(effort),
            )
        },
{
    let mut f: Vec<(String, Json)> = Vec::new();
    f.push((String::from_str("threadId"), Json::Str(String::from_str(thread_id))));
    f.push((String::from_str("input"), Json::Arr(input)));
    f.push((String::from_str("cwd"), Json::Str(String::from_str(cwd))));
    f.push((String::from_str("approvalPolicy"), Json::Str(approval_policy)));
    f.push((String::from_str("sandboxPolicy"), sandbox_policy));
    let model_json = match model {
        Option::Some(s) => Json::Str(s),
        Option::None => Json::Null,
    };
    f.push((String::from_str("model"), model_json));
    let effort_json = match effort {
        Option::Some(s) => Json::Str(s),
        Option::None => Json::Null,
    };
    f.push((String::from_str("effort"), effort_json));
    Json::Obj(f)
}

} // verus!
