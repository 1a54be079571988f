//! Profile updates: which columns a partial update touches, in which
//! order, with which statement parameters. The SQL text and the
//! parameter list are computed and pinned down exactly; running the
//! statement is the application shell's business.

use crate::decimal::{dec_chars, u64_to_dec_string};
use vstd::prelude::*;
use vstd::string::*;

verus! {

/// A partial profile update; `None` fields are left untouched.
#[derive(Debug, Default)]
pub struct UserProfileUpdate {
    pub display_name: Option<String>,
    pub avatar_context_id: Option<String>,
    pub banner_context_id: Option<String>,
    pub bio: Option<String>,
    pub languages: Option<Vec<String>>,
}

/// One statement parameter: a text column or a text-array column.
#[derive(Debug, Clone)]
pub enum ProfileParam {
    Text(String),
    TextList(Vec<String>),
}

pub enum ProfileParamView {
    Text(Seq<char>),
    TextList(Seq<Seq<char>>),
}

impl View for ProfileParam {
    type V = ProfileParamView;

    open spec fn view(&self) -> ProfileParamView {
        match self {
            ProfileParam::Text(s) => ProfileParamView::Text(s@),
            ProfileParam::TextList(v) => ProfileParamView::TextList(
                v@.map_values(|l: String| l@),
            ),
        }
    }
}

/// The columns an update touches, in their fixed order, each with its
/// parameter value.
pub open spec fn upd_fields(u: UserProfileUpdate) -> Seq<(Seq<char>, ProfileParamView)> {
    (if u.display_name is Some {
        seq![(("display_name")@, ProfileParamView::Text(u.display_name->0@))]
    } else {
        Seq::empty()
    }) + (if u.avatar_context_id is Some {
        seq![(("avatar_context_id")@, ProfileParamView::Text(u.avatar_context_id->0@))]
    } else {
        Seq::empty()
    }) + (if u.banner_context_id is Some {
        seq![(("banner_context_id")@, ProfileParamView::Text(u.banner_context_id->0@))]
    } else {
        Seq::empty()
    }) + (if u.bio is Some {
        seq![(("bio")@, ProfileParamView::Text(u.bio->0@))]
    } else {
        Seq::empty()
    }) + (if u.languages is Some {
        seq![
            (
                ("languages")@,
                ProfileParamView::TextList(u.languages->0@.map_values(|l: String| l@)),
            ),
        ]
    } else {
        Seq::empty()
    })
}

/// One `column = $index` clause.
pub open spec fn render_clause(col: Seq<char>, idx: int) -> Seq<char>
    recommends
        idx >= 0,
{
    col + (" = $")@ + dec_chars(idx as nat)
}

/// The first `k` clauses joined with `", "`; clause `j` binds parameter
/// `$(j + 2)`, since `$1` is the user id.
pub open spec fn clauses_prefix(fields: Seq<(Seq<char>, ProfileParamView)>, k: int) -> Seq<char>
    recommends
        k <= fields.len(),
    decreases k,
{
    if k <= 0 {
        Seq::empty()
    } else if k == 1 {
        render_clause(fields[0].0, 2)
    } else {
        clauses_prefix(fields, k - 1) + (", ")@ + render_clause(fields[k - 1].0, k + 1)
    }
}

/// The whole statement text for a non-empty update.
pub open spec fn profile_update_query_chars(fields: Seq<(Seq<char>, ProfileParamView)>) -> Seq<
    char,
> {
    ("UPDATE user_profiles SET ")@ + clauses_prefix(fields, fields.len() as int) + (
    " WHERE user_id = $1")@
}

/// Builds the update statement and its parameters, or `None` when every
/// field is untouched (nothing to run). The parameters come back in
/// clause order; the user id is bound separately as `$1` by the caller.
pub fn user_profile_update_query(update: UserProfileUpdate) -> (r: Option<
    (String, Vec<ProfileParam>),
>)
    ensures
        ({
            let fields = upd_fields(update);
            &&& (r is Some <==> fields.len() > 0)
            &&& (r matches Some(out) ==> out.0@ == profile_update_query_chars(fields))
            &&& (r matches Some(out) ==> out.1@.map_values(|p: ProfileParam| p@)
                == fields.map_values(|f: (Seq<char>, ProfileParamView)| f.1))
        }),
{
    let ghost gu = update;
    let UserProfileUpdate { display_name, avatar_context_id, banner_context_id, bio, languages } =
        update;
    let mut cols: Vec<&'static str> = Vec::new();
    let mut params: Vec<ProfileParam> = Vec::new();
    if let Some(v) = display_name {
        cols.push("display_name");
        params.push(ProfileParam::Text(v));
    }
    if let Some(v) = avatar_context_id {
        cols.push("avatar_context_id");
        params.push(ProfileParam::Text(v));
    }
    if let Some(v) = banner_context_id {
        cols.push("banner_context_id");
        params.push(ProfileParam::Text(v));
    }
    if let Some(v) = bio {
        cols.push("bio");
        params.push(ProfileParam::Text(v));
    }
    if let Some(v) = languages {
        cols.push("languages");
        params.push(ProfileParam::TextList(v));
    }
    let ghost fields = upd_fields(gu);
    proof {
        assert(cols@.map_values(|c: &'static str| c@) =~~= fields.map_values(
            |f: (Seq<char>, ProfileParamView)| f.0,
        ));
        assert(params@.map_values(|p: ProfileParam| p@) =~~= fields.map_values(
            |f: (Seq<char>, ProfileParamView)| f.1,
        ));
    }
    let n = cols.len();
    if n == 0 {
        return None;
    }
    let mut q = "UPDATE user_profiles SET ".to_owned();
    let mut i: usize = 0;
    while i < n
        invariant
            i <= n,
            n == cols@.len(),
            n == fields.len(),
            n <= 5,
            cols@.map_values(|c: &'static str| c@) == fields.map_values(
                |f: (Seq<char>, ProfileParamView)| f.0,
            ),
            q@ == ("UPDATE user_profiles SET ")@ + clauses_prefix(fields, i as int),
        decreases n - i,
    {
        if i > 0 {
            q.append(", ");
        }
        q.append(cols[i]);
        q.append(" = $");
        let idx_str = u64_to_dec_string(i as u64 + 2);
        q.append(idx_str.as_str());
        proof {
            assert(cols@.map_values(|c: &'static str| c@)[i as int] == cols@[i as int]@);
            assert(fields.map_values(|f: (Seq<char>, ProfileParamView)| f.0)[i as int] == fields[i as int].0);
            assert(q@ =~= ("UPDATE user_profiles SET ")@ + clauses_prefix(fields, i as int + 1));
        }
        i = i + 1;
    }
    q.append(" WHERE user_id = $1");
    proof {
        assert(q@ =~= profile_update_query_chars(fields));
    }
    Some((q, params))
}

} // verus!
