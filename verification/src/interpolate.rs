use vstd::prelude::*;
use crate::config::{ApiConfig, Workflow};

verus! {

/// The environment bindings the interpolator substitutes from, as name and
/// value pairs. The first binding of a name wins.
pub struct EnvBindings {
    pub pairs: Vec<(String, String)>,
}

/// The bindings as mathematical character sequences.
pub open spec fn env_view(pairs: Seq<(String, String)>) -> Seq<(Seq<char>, Seq<char>)> {
    pairs.map_values(|p: (String, String)| (p.0@, p.1@))
}

/// The value bound to a name: the first pair that carries it, if any.
pub open spec fn env_lookup(env: Seq<(Seq<char>, Seq<char>)>, name: Seq<char>) -> Option<Seq<char>>
    decreases env.len(),
{
    if env.len() == 0 {
        None
    } else if env[0].0 == name {
        Some(env[0].1)
    } else {
        env_lookup(env.drop_first(), name)
    }
}

/// The position of the first closing brace, or -1 when there is none.
pub open spec fn find_close(s: Seq<char>) -> int
    decreases s.len(),
{
    if s.len() == 0 {
        -1
    } else if s[0] == '}' {
        0
    } else {
        let rest = find_close(s.drop_first());
        if rest < 0 {
            -1
        } else {
            rest + 1
        }
    }
}

proof fn lemma_find_close_bounds(s: Seq<char>)
    ensures
        -1 <= find_close(s) < s.len(),
        find_close(s) >= 0 ==> s[find_close(s)] == '}',
    decreases s.len(),
{
    if s.len() > 0 && s[0] != '}' {
        lemma_find_close_bounds(s.drop_first());
    }
}

proof fn lemma_find_close_none(s: Seq<char>)
    requires
        forall|i: int| 0 <= i < s.len() ==> s[i] != '}',
    ensures
        find_close(s) == -1,
    decreases s.len(),
{
    if s.len() > 0 {
        assert forall|i: int| 0 <= i < s.drop_first().len() implies s.drop_first()[i] != '}' by {
            assert(s.drop_first()[i] == s[i + 1]);
        }
        lemma_find_close_none(s.drop_first());
    }
}

proof fn lemma_find_close_at(s: Seq<char>, m: int)
    requires
        0 <= m < s.len(),
        s[m] == '}',
        forall|i: int| 0 <= i < m ==> s[i] != '}',
    ensures
        find_close(s) == m,
    decreases m,
{
    if m > 0 {
        assert forall|i: int| 0 <= i < m - 1 implies s.drop_first()[i] != '}' by {
            assert(s.drop_first()[i] == s[i + 1]);
        }
        assert(s.drop_first()[m - 1] == s[m]);
        lemma_find_close_at(s.drop_first(), m - 1);
    }
}

/// A string with every `${NAME}` placeholder resolved. Scanning left to
/// right: a placeholder with a bound name becomes its value; one with an
/// unbound or empty name stays literal; a `${` with no closing brace leaves
/// the rest untouched. A substituted value is not scanned again.
pub open spec fn interpolated(s: Seq<char>, env: Seq<(Seq<char>, Seq<char>)>) -> Seq<char>
    decreases s.len(),
{
    if s.len() == 0 {
        s
    } else if s.len() < 2 || !(s[0] == '$' && s[1] == '{') {
        seq![s[0]] + interpolated(s.drop_first(), env)
    } else {
        let close = find_close(s.skip(2));
        if close < 0 || close + 3 > s.len() {
            s
        } else if close == 0 {
            seq![s[0]] + interpolated(s.drop_first(), env)
        } else {
            let name = s.skip(2).take(close);
            let rest = s.skip(close + 3);
            match env_lookup(env, name) {
                Some(v) => v + interpolated(rest, env),
                None => s.take(close + 3) + interpolated(rest, env),
            }
        }
    }
}

proof fn lemma_env_lookup_at(env: Seq<(Seq<char>, Seq<char>)>, name: Seq<char>, j: int)
    requires
        0 <= j < env.len(),
        env[j].0 == name,
        forall|k: int| 0 <= k < j ==> (#[trigger] env[k]).0 != name,
    ensures
        env_lookup(env, name) == Some(env[j].1),
    decreases j,
{
    if j > 0 {
        assert(env.drop_first()[j - 1] == env[j]);
        assert forall|k: int| 0 <= k < j - 1 implies (#[trigger] env.drop_first()[k]).0 != name by {
            assert(env.drop_first()[k] == env[k + 1]);
        }
        lemma_env_lookup_at(env.drop_first(), name, j - 1);
    }
}

proof fn lemma_env_lookup_none(env: Seq<(Seq<char>, Seq<char>)>, name: Seq<char>)
    requires
        forall|k: int| 0 <= k < env.len() ==> (#[trigger] env[k]).0 != name,
    ensures
        env_lookup(env, name) is None,
    decreases env.len(),
{
    if env.len() > 0 {
        assert forall|k: int|
            0 <= k < env.drop_first().len() implies (#[trigger] env.drop_first()[k]).0 != name by {
            assert(env.drop_first()[k] == env[k + 1]);
        }
        lemma_env_lookup_none(env.drop_first(), name);
    }
}

/// Looks a name up among the bindings.
fn env_get<'a>(env: &'a EnvBindings, name: &String) -> (r: Option<&'a String>)
    ensures
        match r {
            Some(v) => env_lookup(env_view(env.pairs@), name@) == Some(v@),
            None => env_lookup(env_view(env.pairs@), name@) is None,
        },
{
    let n = env.pairs.len();
    let mut i: usize = 0;
    while i < n
        invariant
            0 <= i <= n,
            n == env.pairs@.len(),
            forall|k: int| 0 <= k < i ==> (#[trigger] env.pairs@[k]).0@ != name@,
        decreases n - i,
    {
        if env.pairs[i].0 == *name {
            proof {
                lemma_env_lookup_at(env_view(env.pairs@), name@, i as int);
            }
            return Some(&env.pairs[i].1);
        }
        i = i + 1;
    }
    proof {
        lemma_env_lookup_none(env_view(env.pairs@), name@);
    }
    None
}

/// Resolves every `${NAME}` placeholder in the input against the bindings;
/// a placeholder whose name is unbound passes through literally.
pub fn interpolate_string(input: &str, env: &EnvBindings) -> (r: String)
    ensures
        r@ == interpolated(input@, env_view(env.pairs@)),
    decreases input@.len(),
{
    let len = input.unicode_len();
    if len == 0 {
        return String::new();
    }
    let c0 = input.get_char(0);
    let starts_placeholder = len >= 2 && c0 == '$' && input.get_char(1) == '{';
    if !starts_placeholder {
        let head = input.substring_char(0, 1);
        let tail = input.substring_char(1, len);
        let rest = interpolate_string(tail, env);
        proof {
            assert(seq![input@[0]] =~= input@.subrange(0, 1));
            assert(input@.drop_first() =~= input@.subrange(1, len as int));
        }
        return String::from_str(head).concat(rest.as_str());
    }
    let mut j: usize = 2;
    while j < len && input.get_char(j) != '}'
        invariant
            2 <= j <= len,
            len == input@.len(),
            forall|k: int| 2 <= k < j ==> input@[k] != '}',
        decreases len - j,
    {
        j = j + 1;
    }
    if j == len {
        proof {
            assert forall|i: int| 0 <= i < input@.skip(2).len() implies input@.skip(2)[i]
                != '}' by {
                assert(input@.skip(2)[i] == input@[i + 2]);
            }
            lemma_find_close_none(input@.skip(2));
        }
        return input.to_owned();
    }
    proof {
        assert(input@.skip(2)[j - 2] == input@[j as int]);
        assert forall|i: int| 0 <= i < j - 2 implies input@.skip(2)[i] != '}' by {
            assert(input@.skip(2)[i] == input@[i + 2]);
        }
        lemma_find_close_at(input@.skip(2), j - 2);
    }
    if j == 2 {
        let head = input.substring_char(0, 1);
        let tail = input.substring_char(1, len);
        let rest = interpolate_string(tail, env);
        proof {
            assert(seq![input@[0]] =~= input@.subrange(0, 1));
            assert(input@.drop_first() =~= input@.subrange(1, len as int));
        }
        return String::from_str(head).concat(rest.as_str());
    }
    let name = input.substring_char(2, j).to_owned();
    let after = input.substring_char(j + 1, len);
    let rest = interpolate_string(after, env);
    proof {
        assert(name@ =~= input@.skip(2).take(j - 2));
        assert(after@ =~= input@.skip(j + 1 as int));
    }
    match env_get(env, &name) {
        Some(v) => v.clone().concat(rest.as_str()),
        None => {
            let literal = input.substring_char(0, j + 1);
            proof {
                assert(literal@ =~= input@.take(j + 1 as int));
            }
            String::from_str(literal).concat(rest.as_str())
        },
    }
}

/// How interpolation leaves one step: its URL, inline body and header values
/// resolved against the bindings; everything else, header names included,
/// untouched.
pub open spec fn api_interpolated(
    a: ApiConfig,
    b: ApiConfig,
    env: Seq<(Seq<char>, Seq<char>)>,
) -> bool {
    &&& b.name == a.name
    &&& b.task_order == a.task_order
    &&& b.url@ == interpolated(a.url@, env)
    &&& b.expected_field == a.expected_field
    &&& b.response_time_threshold == a.response_time_threshold
    &&& b.method == a.method
    &&& b.body_file == a.body_file
    &&& b.load_test == a.load_test
    &&& b.load_test_config == a.load_test_config
    &&& (b.body is Some <==> a.body is Some)
    &&& (a.body is Some ==> b.body.unwrap()@ == interpolated(a.body.unwrap()@, env))
    &&& b.headers@.len() == a.headers@.len()
    &&& forall|j: int|
        0 <= j < a.headers@.len() ==> (#[trigger] b.headers@[j]).0 == a.headers@[j].0
            && b.headers@[j].1@ == interpolated(a.headers@[j].1@, env)
}

/// Interpolates one step.
fn interpolate_api(api: ApiConfig, env: &EnvBindings) -> (r: ApiConfig)
    ensures
        api_interpolated(api, r, env_view(env.pairs@)),
{
    let url = interpolate_string(api.url.as_str(), env);
    let body = match &api.body {
        Some(b) => Some(interpolate_string(b.as_str(), env)),
        None => None,
    };
    let ghost old_headers = api.headers@;
    let mut headers = api.headers;
    let n = headers.len();
    let mut out: Vec<(String, String)> = Vec::new();
    let mut i: usize = 0;
    while i < n
        invariant
            0 <= i <= n,
            n == old_headers.len(),
            headers@ =~= old_headers.skip(i as int),
            out@.len() == i,
            forall|j: int|
                0 <= j < i ==> (#[trigger] out@[j]).0 == old_headers[j].0 && out@[j].1@
                    == interpolated(old_headers[j].1@, env_view(env.pairs@)),
        decreases n - i,
    {
        proof {
            assert(old_headers.skip(i as int)[0] == old_headers[i as int]);
        }
        let pair = headers.remove(0);
        proof {
            assert(headers@ =~= old_headers.skip(i + 1));
        }
        let value = interpolate_string(pair.1.as_str(), env);
        out.push((pair.0, value));
        i = i + 1;
    }
    ApiConfig {
        name: api.name,
        task_order: api.task_order,
        url,
        headers: out,
        expected_field: api.expected_field,
        response_time_threshold: api.response_time_threshold,
        method: api.method,
        body,
        body_file: api.body_file,
        load_test: api.load_test,
        load_test_config: api.load_test_config,
    }
}

/// Resolves `${NAME}` placeholders in every step of the workflow: each URL,
/// each inline body and each header value; names, header names and the rest
/// of each step stay as they were.
pub fn interpolate_config(workflow: &mut Workflow, env: &EnvBindings)
    ensures
        final(workflow).name == old(workflow).name,
        final(workflow).apis@.len() == old(workflow).apis@.len(),
        forall|i: int|
            0 <= i < old(workflow).apis@.len() ==> api_interpolated(
                old(workflow).apis@[i],
                #[trigger] final(workflow).apis@[i],
                env_view(env.pairs@),
            ),
{
    let n = workflow.apis.len();
    let mut i: usize = 0;
    while i < n
        invariant
            0 <= i <= n,
            n == workflow.apis@.len(),
            n == old(workflow).apis@.len(),
            workflow.name == old(workflow).name,
            forall|j: int|
                0 <= j < i ==> api_interpolated(
                    old(workflow).apis@[j],
                    #[trigger] workflow.apis@[j],
                    env_view(env.pairs@),
                ),
            forall|j: int| i <= j < n ==> workflow.apis@[j] == old(workflow).apis@[j],
        decreases n - i,
    {
        let ghost snap = workflow.apis@;
        let api = workflow.apis.remove(i);
        let updated = interpolate_api(api, env);
        workflow.apis.insert(i, updated);
        proof {
            assert(workflow.apis@ =~= snap.update(i as int, updated));
        }
        i = i + 1;
    }
}

} // verus!
