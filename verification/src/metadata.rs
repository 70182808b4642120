//! Per-endpoint wire metadata and version-aware path resolution.
//!
//! Every endpoint carries an [`EndpointMetadata`]: its method, rate-limit
//! flag, authentication requirement, declared path-parameter count, and an
//! ascending history of `(protocol version, path template)` pairs.
//! Resolution picks, among the history entries whose version does not
//! exceed the greatest version the caller is willing to use, the one with
//! the greatest version, and substitutes the supplied values into the
//! template's positional placeholders, percent-encoding each one per
//! path-segment rules.
//!
//! One endpoint-scoped exception is modelled by `last_param_optional`:
//! such an endpoint accepts one fewer value than placeholders (the
//! trailing value defaults to the empty string), and an empty trailing
//! value leaves its whole path segment out.

use vstd::prelude::*;

verus! {

/// A protocol version identifier, `major.minor`.
#[derive(Clone, Copy, Debug, PartialEq, Eq, Structural)]
pub struct ProtocolVersion {
    /// The major version number.
    pub major: u8,
    /// The minor version number.
    pub minor: u8,
}

/// Whether `a` is at most `b`, ordering versions by major then minor.
pub open spec fn version_le(a: ProtocolVersion, b: ProtocolVersion) -> bool {
    a.major < b.major || (a.major == b.major && a.minor <= b.minor)
}

/// Compares two versions, ordering by major then minor.
pub fn version_le_x(a: &ProtocolVersion, b: &ProtocolVersion) -> (r: bool)
    ensures
        r == version_le(*a, *b),
{
    a.major < b.major || (a.major == b.major && a.minor <= b.minor)
}

/// An HTTP method.
#[derive(Clone, Copy, PartialEq, Eq, Structural)]
#[derive(Debug)]
pub enum HttpMethod {
    /// `GET`
    Get,
    /// `PUT`
    Put,
    /// `POST`
    Post,
    /// `DELETE`
    Delete,
}

/// What credential an endpoint requires.
#[derive(Clone, Copy, PartialEq, Eq, Structural)]
#[derive(Debug)]
pub enum AuthScheme {
    /// No authentication.
    NoAuthentication,
    /// A bearer access token is required.
    AccessToken,
    /// A bearer access token is sent when available, but never required.
    AccessTokenOptional,
    /// The request is authenticated by server signatures, computed by the
    /// signing collaborator; opaque to this crate.
    ServerSignatures,
}

/// One segment of a path template.
#[derive(Debug)]
pub enum PathSeg {
    /// A fixed segment, by its literal bytes (without slashes).
    Literal(Vec<u8>),
    /// A positional placeholder, filled from the supplied path values.
    Param,
}

/// The abstraction of a template segment.
pub enum SpecPathSeg {
    Literal(Seq<u8>),
    Param,
}

/// A path template: its segments in order, each rendered after a `/`.
pub type PathTemplate = Vec<PathSeg>;

/// The abstraction of a template.
pub open spec fn segs_view(t: Seq<PathSeg>) -> Seq<SpecPathSeg> {
    Seq::new(
        t.len(),
        |i: int|
            match t[i] {
                PathSeg::Literal(l) => SpecPathSeg::Literal(l@),
                PathSeg::Param => SpecPathSeg::Param,
            },
    )
}

/// The number of placeholders in a template.
pub open spec fn spec_param_count(t: Seq<SpecPathSeg>) -> int
    decreases t.len(),
{
    if t.len() == 0 {
        0
    } else {
        spec_param_count(t.subrange(0, t.len() - 1)) + if t[t.len() - 1] is Param {
            1int
        } else {
            0int
        }
    }
}

/// Per-endpoint wire metadata.
pub struct EndpointMetadata {
    /// The HTTP method of every request to this endpoint.
    pub method: HttpMethod,
    /// Whether the endpoint is rate-limited.
    pub rate_limited: bool,
    /// The endpoint's authentication requirement.
    pub authentication: AuthScheme,
    /// The declared number of path parameters.
    pub path_params: usize,
    /// The endpoint-scoped arity exception: one fewer supplied value than
    /// placeholders is accepted, the trailing value defaulting to the
    /// empty string, and an empty trailing value leaves its segment out.
    pub last_param_optional: bool,
    /// The historical wire shapes: `(version, template)` pairs, strictly
    /// ascending by version.
    pub history: Vec<(ProtocolVersion, PathTemplate)>,
}

/// The abstraction of a history.
pub open spec fn history_view(h: Seq<(ProtocolVersion, PathTemplate)>) -> Seq<
    (ProtocolVersion, Seq<SpecPathSeg>),
> {
    Seq::new(h.len(), |i: int| (h[i].0, segs_view(h[i].1@)))
}

/// The invariant of an endpoint's metadata: the history is strictly
/// ascending by version, every template has exactly the declared number
/// of placeholders, and under the arity exception every template ends
/// with a placeholder.
pub open spec fn metadata_wf(m: &EndpointMetadata) -> bool {
    let h = history_view(m.history@);
    &&& forall|i: int|
        0 <= i < h.len() - 1 ==> #[trigger] version_le(h[i].0, h[i + 1].0) && h[i].0 != h[i
            + 1].0
    &&& forall|i: int| 0 <= i < h.len() ==> spec_param_count(#[trigger] h[i].1) == m.path_params
    &&& m.last_param_optional ==> m.path_params > 0 && forall|i: int|
        0 <= i < h.len() ==> (#[trigger] h[i].1).len() > 0 && h[i].1[h[i].1.len() - 1] is Param
}

/// The greatest version in a non-empty sequence.
pub open spec fn spec_vmax(vs: Seq<ProtocolVersion>) -> ProtocolVersion
    decreases vs.len(),
{
    if vs.len() <= 1 {
        vs[0]
    } else {
        let m = spec_vmax(vs.subrange(0, vs.len() - 1));
        if version_le(m, vs[vs.len() - 1]) {
            vs[vs.len() - 1]
        } else {
            m
        }
    }
}

/// The index, among the first `n` history entries, of the last entry
/// whose version is at most `vmax` — under an ascending history, the
/// entry with the greatest such version.
pub open spec fn spec_select_upto(
    h: Seq<(ProtocolVersion, Seq<SpecPathSeg>)>,
    n: int,
    vmax: ProtocolVersion,
) -> Option<int>
    decreases n,
{
    if n <= 0 || n > h.len() {
        None
    } else if version_le(h[n - 1].0, vmax) {
        Some(n - 1)
    } else {
        spec_select_upto(h, n - 1, vmax)
    }
}

/// The history entry resolution picks for `considering`: the entry with
/// the greatest version not exceeding the greatest considered version,
/// or `None` where no entry qualifies (or nothing is considered).
pub open spec fn spec_select(
    h: Seq<(ProtocolVersion, Seq<SpecPathSeg>)>,
    considering: Seq<ProtocolVersion>,
) -> Option<int> {
    if considering.len() == 0 {
        None
    } else {
        spec_select_upto(h, h.len() as int, spec_vmax(considering))
    }
}

/// Whether `b` needs no percent-encoding in a path segment: the
/// unreserved bytes of the generic URI syntax.
pub open spec fn is_unreserved(b: u8) -> bool {
    (0x41 <= b <= 0x5a) || (0x61 <= b <= 0x7a) || (0x30 <= b <= 0x39) || b == 0x2d || b == 0x2e
        || b == 0x5f || b == 0x7e
}

/// The upper-case hexadecimal digit for `v < 16`.
pub open spec fn hex_upper(v: nat) -> u8 {
    if v < 10 {
        (48 + v) as u8
    } else {
        (55 + v) as u8
    }
}

/// The percent-encoding of one byte.
pub open spec fn pct_byte(b: u8) -> Seq<u8> {
    if is_unreserved(b) {
        seq![b]
    } else {
        seq![0x25u8, hex_upper((b / 16) as nat), hex_upper((b % 16) as nat)]
    }
}

/// The percent-encoding of a whole value.
pub open spec fn pct_encode(s: Seq<u8>) -> Seq<u8>
    decreases s.len(),
{
    if s.len() == 0 {
        Seq::empty()
    } else {
        pct_encode(s.subrange(0, s.len() - 1)) + pct_byte(s[s.len() - 1])
    }
}

/// The rendering of the template suffix from segment `i` on, filling
/// placeholders from `vals` starting at `j`: each segment is a `/`
/// followed by its literal bytes or its percent-encoded value.  A
/// placeholder beyond the supplied values renders as an empty value.
pub open spec fn render_from(
    t: Seq<SpecPathSeg>,
    vals: Seq<Seq<u8>>,
    i: int,
    j: int,
) -> Seq<u8>
    decreases t.len() - i,
{
    if !(0 <= i < t.len()) {
        Seq::empty()
    } else {
        match t[i] {
            SpecPathSeg::Literal(l) => seq![0x2fu8] + l + render_from(t, vals, i + 1, j),
            SpecPathSeg::Param => seq![0x2fu8] + (
            if 0 <= j < vals.len() {
                pct_encode(vals[j])
            } else {
                Seq::empty()
            }) + render_from(t, vals, i + 1, j + 1),
        }
    }
}

/// A failure to resolve a wire path.
#[derive(Debug)]
pub enum ResolveError {
    /// No history entry's version is among the considered versions'
    /// reach; carries the versions that were attempted.
    VersionMismatch(Vec<ProtocolVersion>),
    /// The number of supplied path values does not match the template's
    /// placeholder count (after the endpoint-scoped exception).
    ArityError,
}

/// The abstraction of path resolution over an endpoint's components: the
/// rendered path of the selected template, a version mismatch, or an
/// arity error.
pub open spec fn spec_resolve_core(
    h: Seq<(ProtocolVersion, Seq<SpecPathSeg>)>,
    path_params: int,
    last_param_optional: bool,
    considering: Seq<ProtocolVersion>,
    vals: Seq<Seq<u8>>,
) -> Result<Seq<u8>, ResolveError> {
    match spec_select(h, considering) {
        None => Err(ResolveError::VersionMismatch(arbitrary())),
        Some(idx) => {
            let t = h[idx].1;
            if vals.len() == path_params && !(last_param_optional && vals.len() > 0
                && vals[vals.len() - 1].len() == 0) {
                Ok(render_from(t, vals, 0, 0))
            } else if last_param_optional && (vals.len() + 1 == path_params || (vals.len()
                == path_params && vals[vals.len() - 1].len() == 0)) {
                let tt = t.subrange(0, t.len() - 1);
                let vv = if vals.len() == path_params {
                    vals.subrange(0, vals.len() - 1)
                } else {
                    vals
                };
                Ok(render_from(tt, vv, 0, 0))
            } else {
                Err(ResolveError::ArityError)
            }
        },
    }
}

/// The abstraction of what `resolve_path` returns for `m`.
pub open spec fn spec_resolve_path(
    m: &EndpointMetadata,
    considering: Seq<ProtocolVersion>,
    vals: Seq<Seq<u8>>,
) -> Result<Seq<u8>, ResolveError> {
    spec_resolve_core(
        history_view(m.history@),
        m.path_params as int,
        m.last_param_optional,
        considering,
        vals,
    )
}

/// Appends the percent-encoding of `s` to `out`.
pub fn write_pct(s: &[u8], out: &mut Vec<u8>)
    ensures
        final(out)@ == old(out)@ + pct_encode(s@),
{
    let mut i: usize = 0;
    proof {
        assert(pct_encode(s@.take(0)) =~= Seq::<u8>::empty());
        assert(out@ =~= old(out)@ + pct_encode(s@.take(0)));
    }
    while i < s.len()
        invariant
            i <= s.len(),
            out@ == old(out)@ + pct_encode(s@.take(i as int)),
        decreases s.len() - i,
    {
        let b = s[i];
        if (0x41 <= b && b <= 0x5a) || (0x61 <= b && b <= 0x7a) || (0x30 <= b && b <= 0x39) || b
            == 0x2d || b == 0x2e || b == 0x5f || b == 0x7e {
            out.push(b);
        } else {
            out.push(0x25);
            let hi: u8 = b / 16;
            let lo: u8 = b % 16;
            out.push(if hi < 10 { 48 + hi } else { 55 + hi });
            out.push(if lo < 10 { 48 + lo } else { 55 + lo });
        }
        proof {
            let t = s@.take(i as int + 1);
            assert(t.subrange(0, t.len() - 1) =~= s@.take(i as int));
            assert(t[t.len() - 1] == s@[i as int]);
            assert(out@ =~= old(out)@ + pct_encode(s@.take(i as int + 1)));
        }
        i = i + 1;
    }
    proof {
        assert(s@.take(s@.len() as int) =~= s@);
    }
}

/// Appends the rendering of the template suffix from segment `i` on to
/// `out`, filling placeholders from `vals` starting at `j`.
fn render_x(t: &Vec<PathSeg>, vals: &Vec<Vec<u8>>, i: usize, j: usize, out: &mut Vec<u8>)
    requires
        i <= t@.len(),
        j <= i,
    ensures
        final(out)@ == old(out)@ + render_from(segs_view(t@), vals_view(vals@), i as int, j as int),
    decreases t@.len() - i,
{
    if i == t.len() {
        proof {
            assert(out@ =~= old(out)@ + render_from(
                segs_view(t@),
                vals_view(vals@),
                i as int,
                j as int,
            ));
        }
        return ;
    }
    out.push(0x2f);
    match &t[i] {
        PathSeg::Literal(l) => {
            crate::json_out::push_bytes(l.as_slice(), out);
            render_x(t, vals, i + 1, j, out);
            proof {
                assert(out@ =~= old(out)@ + render_from(
                    segs_view(t@),
                    vals_view(vals@),
                    i as int,
                    j as int,
                ));
            }
        },
        PathSeg::Param => {
            if j < vals.len() {
                write_pct(vals[j].as_slice(), out);
            }
            render_x(t, vals, i + 1, j + 1, out);
            proof {
                assert(out@ =~= old(out)@ + render_from(
                    segs_view(t@),
                    vals_view(vals@),
                    i as int,
                    j as int,
                ));
            }
        },
    }
}

/// The abstraction of the supplied path values.
pub open spec fn vals_view(vals: Seq<Vec<u8>>) -> Seq<Seq<u8>> {
    Seq::new(vals.len(), |i: int| vals[i]@)
}

/// Copies the considered versions (to name them in a mismatch).
fn copy_versions(vs: &Vec<ProtocolVersion>) -> (r: Vec<ProtocolVersion>)
    ensures
        r@ == vs@,
{
    let mut r: Vec<ProtocolVersion> = Vec::new();
    let mut i: usize = 0;
    while i < vs.len()
        invariant
            i <= vs.len(),
            r@ == vs@.take(i as int),
        decreases vs.len() - i,
    {
        r.push(vs[i]);
        proof {
            assert(r@ =~= vs@.take(i as int + 1));
        }
        i = i + 1;
    }
    proof {
        assert(vs@.take(vs@.len() as int) =~= vs@);
    }
    r
}

/// The greatest considered version.
fn vmax_x(vs: &Vec<ProtocolVersion>) -> (r: ProtocolVersion)
    requires
        vs@.len() > 0,
    ensures
        r == spec_vmax(vs@),
{
    let mut m: ProtocolVersion = vs[0];
    proof {
        assert(vs@.take(1).len() == 1);
        assert(vs@.take(1)[0] == vs@[0]);
    }
    let mut i: usize = 1;
    while i < vs.len()
        invariant
            1 <= i <= vs@.len(),
            m == spec_vmax(vs@.take(i as int)),
        decreases vs.len() - i,
    {
        proof {
            let t = vs@.take(i as int + 1);
            assert(t.subrange(0, t.len() - 1) =~= vs@.take(i as int));
            assert(t[t.len() - 1] == vs@[i as int]);
        }
        if version_le_x(&m, &vs[i]) {
            m = vs[i];
        }
        i = i + 1;
    }
    proof {
        assert(vs@.take(vs@.len() as int) =~= vs@);
    }
    m
}

/// The index of the history entry with the greatest version not
/// exceeding `vmax`, under an ascending history.
fn select_x(h: &Vec<(ProtocolVersion, PathTemplate)>, vmax: &ProtocolVersion) -> (r: Option<
    usize,
>)
    ensures
        match r {
            Some(i) => spec_select_upto(history_view(h@), h@.len() as int, *vmax) == Some(
                i as int,
            ) && i < h@.len(),
            None => spec_select_upto(history_view(h@), h@.len() as int, *vmax) is None,
        },
{
    let ghost hv = history_view(h@);
    let mut n: usize = h.len();
    while n > 0
        invariant
            n <= h@.len(),
            hv == history_view(h@),
            hv.len() == h@.len(),
            forall|k: int| 0 <= k < hv.len() ==> (#[trigger] hv[k]).0 == h@[k].0,
            spec_select_upto(hv, hv.len() as int, *vmax) == spec_select_upto(
                hv,
                n as int,
                *vmax,
            ),
        decreases n,
    {
        if version_le_x(&h[n - 1].0, vmax) {
            return Some(n - 1);
        }
        n = n - 1;
    }
    None
}

/// Resolves the wire path for this endpoint: picks the history entry per
/// [`spec_select`] (failing with `VersionMismatch`, naming the attempted
/// versions, where none qualifies), checks the supplied value count
/// against the placeholder count under the endpoint-scoped arity
/// exception (failing with `ArityError` otherwise), and renders the
/// template with each value percent-encoded.
pub fn resolve_path(
    m: &EndpointMetadata,
    considering: &Vec<ProtocolVersion>,
    vals: &Vec<Vec<u8>>,
) -> (r: Result<Vec<u8>, ResolveError>)
    requires
        metadata_wf(m),
    ensures
        match r {
            Ok(path) => spec_resolve_path(m, considering@, vals_view(vals@)) == Ok::<
                Seq<u8>,
                ResolveError,
            >(path@),
            Err(e) => match e {
                ResolveError::VersionMismatch(vs) => vs@ == considering@ && spec_resolve_path(
                    m,
                    considering@,
                    vals_view(vals@),
                ) matches Err(ResolveError::VersionMismatch(_)),
                ResolveError::ArityError => spec_resolve_path(
                    m,
                    considering@,
                    vals_view(vals@),
                ) == Err::<Seq<u8>, ResolveError>(ResolveError::ArityError),
            },
        },
{
    if considering.len() == 0 {
        return Err(ResolveError::VersionMismatch(copy_versions(considering)));
    }
    proof {
        assert(history_view(m.history@).len() == m.history@.len());
    }
    let vmax = vmax_x(considering);
    let idx = match select_x(&m.history, &vmax) {
        Some(i) => i,
        None => {
            return Err(ResolveError::VersionMismatch(copy_versions(considering)));
        },
    };
    let t = &m.history[idx].1;
    proof {
        assert(history_view(m.history@)[idx as int].1 == segs_view(t@));
    }
    let trailing_empty = m.last_param_optional && vals.len() > 0 && vals.len() == m.path_params
        && vals[vals.len() - 1].len() == 0;
    if vals.len() == m.path_params && !trailing_empty {
        let mut out: Vec<u8> = Vec::new();
        render_x(t, vals, 0, 0, &mut out);
        proof {
            assert(out@ =~= render_from(segs_view(t@), vals_view(vals@), 0, 0));
        }
        return Ok(out);
    }
    if m.last_param_optional && ((m.path_params > 0 && vals.len() == m.path_params - 1)
        || trailing_empty) {
        let tt = shorten_template(t);
        let out: Vec<u8> = if trailing_empty {
            let vv = shorten_vals(vals);
            let mut out: Vec<u8> = Vec::new();
            render_x(&tt, &vv, 0, 0, &mut out);
            proof {
                assert(segs_view(tt@) =~= segs_view(t@).subrange(0, segs_view(t@).len() - 1));
                assert(vals_view(vv@) =~= vals_view(vals@).subrange(
                    0,
                    vals_view(vals@).len() - 1,
                ));
            }
            out
        } else {
            let mut out: Vec<u8> = Vec::new();
            render_x(&tt, vals, 0, 0, &mut out);
            proof {
                assert(segs_view(tt@) =~= segs_view(t@).subrange(0, segs_view(t@).len() - 1));
            }
            out
        };
        return Ok(out);
    }
    Err(ResolveError::ArityError)
}

/// Copies a template without its final segment.
fn shorten_template(t: &Vec<PathSeg>) -> (r: Vec<PathSeg>)
    requires
        t@.len() > 0,
    ensures
        segs_view(r@) == segs_view(t@).subrange(0, segs_view(t@).len() - 1),
{
    let mut r: Vec<PathSeg> = Vec::new();
    let mut i: usize = 0;
    while i < t.len() - 1
        invariant
            t@.len() > 0,
            i <= t@.len() - 1,
            r@.len() == i,
            forall|k: int|
                0 <= k < i ==> segs_view(r@)[k] == segs_view(t@)[k],
        decreases t.len() - 1 - i,
    {
        match &t[i] {
            PathSeg::Literal(l) => {
                let c = crate::json_parse::copy_range(l.as_slice(), 0, l.len());
                proof {
                    assert(c@ =~= l@);
                }
                r.push(PathSeg::Literal(c));
            },
            PathSeg::Param => {
                r.push(PathSeg::Param);
            },
        }
        proof {
            assert(segs_view(r@)[i as int] == segs_view(t@)[i as int]);
        }
        i = i + 1;
    }
    proof {
        assert(segs_view(r@) =~= segs_view(t@).subrange(0, segs_view(t@).len() - 1));
    }
    r
}

/// Copies the supplied values without the final one.
fn shorten_vals(vals: &Vec<Vec<u8>>) -> (r: Vec<Vec<u8>>)
    requires
        vals@.len() > 0,
    ensures
        vals_view(r@) == vals_view(vals@).subrange(0, vals_view(vals@).len() - 1),
{
    let mut r: Vec<Vec<u8>> = Vec::new();
    let mut i: usize = 0;
    while i < vals.len() - 1
        invariant
            vals@.len() > 0,
            i <= vals@.len() - 1,
            r@.len() == i,
            forall|k: int| 0 <= k < i ==> vals_view(r@)[k] == vals_view(vals@)[k],
        decreases vals.len() - 1 - i,
    {
        r.push(crate::json_parse::copy_range(vals[i].as_slice(), 0, vals[i].len()));
        proof {
            assert(vals_view(r@)[i as int] == vals_view(vals@)[i as int]);
        }
        i = i + 1;
    }
    proof {
        assert(vals_view(r@) =~= vals_view(vals@).subrange(0, vals_view(vals@).len() - 1));
    }
    r
}

/// A required credential was absent.
#[derive(Debug)]
pub enum AuthError {
    /// The endpoint requires an access token and none was supplied.
    MissingAuthentication,
}

/// The bytes of the header value prefix `Bearer `.
pub open spec fn bearer_prefix() -> Seq<u8> {
    seq![0x42u8, 0x65u8, 0x61u8, 0x72u8, 0x65u8, 0x72u8, 0x20u8]
}

/// Resolves the `Authorization` header value for `requirement` given the
/// supplied token: a required token that is absent fails with
/// `MissingAuthentication`; an optional token is used when present;
/// no-authentication and server-signature endpoints get no bearer header
/// here (signatures belong to the signing collaborator).
pub fn resolve_auth(requirement: &AuthScheme, token: Option<&Vec<u8>>) -> (r: Result<
    Option<Vec<u8>>,
    AuthError,
>)
    ensures
        match requirement {
            AuthScheme::AccessToken => match token {
                Some(t) => r matches Ok(Some(h)) && h@ == bearer_prefix() + t@,
                None => r matches Err(AuthError::MissingAuthentication),
            },
            AuthScheme::AccessTokenOptional => match token {
                Some(t) => r matches Ok(Some(h)) && h@ == bearer_prefix() + t@,
                None => r matches Ok(None),
            },
            AuthScheme::NoAuthentication => r matches Ok(None),
            AuthScheme::ServerSignatures => r matches Ok(None),
        },
{
    match requirement {
        AuthScheme::AccessToken => match token {
            Some(t) => Ok(Some(bearer_header(t))),
            None => Err(AuthError::MissingAuthentication),
        },
        AuthScheme::AccessTokenOptional => match token {
            Some(t) => Ok(Some(bearer_header(t))),
            None => Ok(None),
        },
        AuthScheme::NoAuthentication => Ok(None),
        AuthScheme::ServerSignatures => Ok(None),
    }
}

/// Builds the header value `Bearer <token>`.
fn bearer_header(token: &Vec<u8>) -> (r: Vec<u8>)
    ensures
        r@ == bearer_prefix() + token@,
{
    let mut r: Vec<u8> = Vec::new();
    r.push(0x42);
    r.push(0x65);
    r.push(0x61);
    r.push(0x72);
    r.push(0x65);
    r.push(0x72);
    r.push(0x20);
    crate::json_out::push_bytes(token.as_slice(), &mut r);
    proof {
        assert(r@ =~= bearer_prefix() + token@);
    }
    r
}

} // verus!
