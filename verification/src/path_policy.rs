//! The lexical rules for paths in requests.
use crate::internal_names;
use crate::internal_names::is_internal_name;
use crate::paths;
use crate::paths::LexicalPath;
use crate::text;
use crate::text::{
    concat, contains_char, split_text, str_eq, strip_prefix, strip_suffix, trim_leading, utf8_text,
};
use crate::uri;
use crate::uri::{decode_uri, encode_uri};
use vstd::prelude::*;
use vstd::string::*;
use vstd::utf8::*;

verus! {

/// The most bytes of one name of a path.
pub const BROWSER_COMPONENT_BYTES_LIMIT: usize = 255;

/// The most bytes of a path below the root.
pub const BROWSER_RELATIVE_PATH_BYTES_LIMIT: usize = 4095;

/// A name that a user can give to an entry at any depth.
pub open spec fn is_usable_name(name: Seq<char>) -> bool {
    &&& name.len() > 0
    &&& name != "."@
    &&& name != ".."@
    &&& encode_utf8(name).len() <= BROWSER_COMPONENT_BYTES_LIMIT
    &&& internal_names::internal_kind(name) is None
}

fn check_usable_name(name: &str) -> (usable: bool)
    ensures
        usable == is_usable_name(name@),
{
    !name.is_empty() && !str_eq(name, ".") && !str_eq(name, "..") && name.as_bytes().len()
        <= BROWSER_COMPONENT_BYTES_LIMIT && !is_internal_name(name)
}

/// A normalized path for the selection of a route. Percent decoding and the
/// canonical form of reserved namespaces are settled where it is made.
pub struct RoutePath {
    path: String,
}

impl RoutePath {
    pub closed spec fn view(self) -> Seq<char> {
        self.path@
    }

    pub fn as_str(&self) -> (path: &str)
        ensures
            path@ == self@,
    {
        self.path.as_str()
    }
}

/// A lexical path beneath the served root. What it resolves to is the
/// filesystem's concern.
pub struct RootedPath {
    path: LexicalPath,
}

impl RootedPath {
    pub closed spec fn view(self) -> Seq<Seq<u8>> {
        self.path@
    }

    pub fn as_path(&self) -> (path: &LexicalPath)
        ensures
            path@ == self@,
    {
        &self.path
    }

    pub fn into_path_buf(self) -> (path: LexicalPath)
        ensures
            path@ == self@,
    {
        self.path
    }
}

/// The encodings of a list of names.
pub open spec fn encoded_names(names: Seq<Seq<char>>) -> Seq<Seq<u8>> {
    Seq::new(names.len(), |i: int| encode_utf8(names[i]))
}

/// The names of a route: empty pieces drop out, and so do dots after the first
/// name. Anything else that is not a usable name refuses the route.
pub open spec fn route_names(pieces: Seq<Seq<char>>) -> Option<Seq<Seq<char>>>
    decreases pieces.len(),
{
    if pieces.len() == 0 {
        Some(Seq::empty())
    } else {
        let piece = pieces.last();
        match route_names(pieces.drop_last()) {
            None => None,
            Some(names) => if piece.len() == 0 || (piece == "."@ && names.len() > 0) {
                Some(names)
            } else if is_usable_name(piece) {
                Some(names.push(piece))
            } else {
                None
            },
        }
    }
}

proof fn lemma_route_names_are_usable(pieces: Seq<Seq<char>>)
    ensures
        route_names(pieces) matches Some(names) ==> forall|i: int|
            0 <= i < names.len() ==> is_usable_name(#[trigger] names[i]) && pieces.contains(
                names[i],
            ),
    decreases pieces.len(),
{
    if pieces.len() > 0 {
        lemma_route_names_are_usable(pieces.drop_last());
        if let Some(names) = route_names(pieces) {
            let before = route_names(pieces.drop_last())->0;
            assert forall|i: int| 0 <= i < names.len() implies is_usable_name(
                #[trigger] names[i],
            ) && pieces.contains(names[i]) by {
                if i < before.len() {
                    assert(names[i] == before[i]);
                    let j = choose|j: int|
                        0 <= j < pieces.drop_last().len() && pieces.drop_last()[j] == before[i];
                    assert(pieces[j] == before[i]);
                } else {
                    assert(pieces[pieces.len() - 1] == names[i]);
                }
            }
        }
    }
}

/// A path at or below a platform path.
pub open spec fn under_platform(platform: Seq<Seq<char>>, relative: Seq<char>) -> bool {
    exists|i: int|
        0 <= i < platform.len() && (relative == #[trigger] platform[i] || text::has_prefix(
            relative,
            platform[i] + "/"@,
        ))
}

/// A path that a platform path lies below.
pub open spec fn above_platform(platform: Seq<Seq<char>>, relative: Seq<char>) -> bool {
    relative.len() > 0 && exists|i: int|
        0 <= i < platform.len() && text::has_prefix(#[trigger] platform[i], relative + "/"@)
}

/// The lexical path rules that the router and the browser API share. The
/// kernel enforces containment on its own.
pub struct PathPolicy {
    root: LexicalPath,
    assets_component: String,
    platform_paths: Vec<String>,
}

impl PathPolicy {
    pub closed spec fn root(self) -> Seq<Seq<u8>> {
        self.root@
    }

    pub closed spec fn assets(self) -> Seq<char> {
        self.assets_component@
    }

    /// The platform paths, without leading slashes.
    pub closed spec fn platform(self) -> Seq<Seq<char>> {
        text::texts(self.platform_paths@)
    }

    /// The rules for a root, the prefix under which assets are served, and the
    /// paths that the platform answers itself.
    pub fn new(root: LexicalPath, assets_prefix: &str, platform_paths: &Vec<String>) -> (policy:
        PathPolicy)
        ensures
            policy.root() == root@,
            policy.assets() == (if text::has_suffix(assets_prefix@, "/"@) {
                assets_prefix@.drop_last()
            } else {
                assets_prefix@
            }),
            policy.platform() == Seq::new(
                platform_paths@.len(),
                |i: int| text::without_leading(platform_paths@[i]@, '/'),
            ),
    {
        proof {
            reveal_strlit("/");
        }
        let assets_component = match strip_suffix(assets_prefix, "/") {
            Some(component) => {
                assert(component@ =~= assets_prefix@.drop_last());
                String::from_str(component)
            },
            None => String::from_str(assets_prefix),
        };
        let mut trimmed: Vec<String> = Vec::new();
        let mut index: usize = 0;
        while index < platform_paths.len()
            invariant
                index <= platform_paths@.len(),
                trimmed@.len() == index,
                forall|i: int|
                    0 <= i < index ==> (#[trigger] trimmed@[i])@ == text::without_leading(
                        platform_paths@[i]@,
                        '/',
                    ),
            decreases platform_paths@.len() - index,
        {
            trimmed.push(trim_leading(platform_paths[index].as_str(), '/'));
            index += 1;
        }
        let policy = PathPolicy { root, assets_component, platform_paths: trimmed };
        assert(policy.platform() =~= Seq::new(
            platform_paths@.len(),
            |i: int| text::without_leading(platform_paths@[i]@, '/'),
        ));
        policy
    }

    pub fn is_platform_path(&self, relative: &str) -> (result: bool)
        ensures
            result == under_platform(self.platform(), relative@),
    {
        let mut index: usize = 0;
        while index < self.platform_paths.len()
            invariant
                index <= self.platform_paths@.len(),
                forall|i: int|
                    0 <= i < index ==> relative@ != #[trigger] self.platform()[i]
                        && !text::has_prefix(relative@, self.platform()[i] + "/"@),
            decreases self.platform_paths@.len() - index,
        {
            let path = self.platform_paths[index].as_str();
            assert(self.platform()[index as int] == path@);
            if str_eq(relative, path) || strip_prefix(
                relative,
                concat(path, "/").as_str(),
            ).is_some() {
                return true;
            }
            index += 1;
        }
        false
    }

    pub fn is_platform_ancestor(&self, relative: &str) -> (result: bool)
        ensures
            result == above_platform(self.platform(), relative@),
    {
        if relative.is_empty() {
            return false;
        }
        let prefix = concat(relative, "/");
        let mut index: usize = 0;
        while index < self.platform_paths.len()
            invariant
                index <= self.platform_paths@.len(),
                prefix@ == relative@ + "/"@,
                relative@.len() > 0,
                forall|i: int|
                    0 <= i < index ==> !text::has_prefix(
                        #[trigger] self.platform()[i],
                        relative@ + "/"@,
                    ),
            decreases self.platform_paths@.len() - index,
        {
            let path = self.platform_paths[index].as_str();
            assert(self.platform()[index as int] == path@);
            if strip_prefix(path, prefix.as_str()).is_some() {
                return true;
            }
            index += 1;
        }
        false
    }

    pub open spec fn reserves(self, component: Seq<char>) -> bool {
        ||| component == "__dufs__"@
        ||| component == self.assets()
        ||| under_platform(self.platform(), component)
    }

    /// Whether the first name of a path belongs to the server.
    pub fn is_reserved_component(&self, component: &str) -> (result: bool)
        ensures
            result == self.reserves(component@),
    {
        str_eq(component, "__dufs__") || str_eq(component, self.assets_component.as_str())
            || self.is_platform_path(component)
    }

    /// The route of a normalized list of names, under the raw path that it was
    /// read from: a reserved namespace has one spelling only.
    pub open spec fn route_of_names(self, names: Seq<Seq<char>>, raw: Seq<char>) -> Option<
        Seq<char>,
    > {
        let normalized = paths::joined(names, '/');
        let first = if names.len() > 0 {
            names[0]
        } else {
            Seq::empty()
        };
        if encode_utf8(normalized).len() > BROWSER_RELATIVE_PATH_BYTES_LIMIT {
            None
        } else if (under_platform(self.platform(), normalized) || self.reserves(first)) && raw
            != "/"@ + uri::percent_encoded(encode_utf8(normalized)) {
            None
        } else {
            Some(normalized)
        }
    }

    /// The route that a raw request path stands for.
    pub open spec fn route_of(self, raw: Seq<char>) -> Option<Seq<char>> {
        match uri::decoded_uri(raw) {
            None => None,
            Some(path) => if path.contains('\0') {
                None
            } else {
                match route_names(text::split_pieces(path, '/')) {
                    None => None,
                    Some(names) => self.route_of_names(names, raw),
                }
            },
        }
    }

    /// Reads a raw request path.
    pub fn parse_route(&self, raw_path: &str) -> (route: Option<RoutePath>)
        ensures
            route is Some <==> self.route_of(raw_path@) is Some,
            route matches Some(route) ==> self.route_of(raw_path@) == Some(route@),
    {
        let path = match decode_uri(raw_path) {
            Some(path) => path,
            None => return None,
        };
        if contains_char(path.as_str(), '\0') {
            return None;
        }
        let pieces = split_text(path.as_str(), '/');
        let ghost all = text::split_pieces(path@, '/');
        let mut normalized = String::new();
        let mut first: Option<String> = None;
        let ghost mut names: Seq<Seq<char>> = Seq::empty();
        let mut index: usize = 0;
        assert(all.subrange(0, 0) =~= Seq::empty());
        while index < pieces.len()
            invariant
                index <= pieces@.len(),
                text::texts(pieces@) == all,
                self.route_of(raw_path@) == (match route_names(all) {
                    None => None,
                    Some(names) => self.route_of_names(names, raw_path@),
                }),
                route_names(all.subrange(0, index as int)) == Some(names),
                normalized@ == paths::joined(names, '/'),
                first is Some <==> names.len() > 0,
                first matches Some(first) ==> first@ == names[0],
            decreases pieces@.len() - index,
        {
            let piece = pieces[index].as_str();
            let ghost longer = all.subrange(0, index + 1);
            proof {
                assert(longer.drop_last() =~= all.subrange(0, index as int));
                assert(longer.last() == piece@);
            }
            if piece.is_empty() || (str_eq(piece, ".") && first.is_some()) {
                index += 1;
                continue ;
            }
            if !check_usable_name(piece) {
                proof {
                    lemma_refusal_is_final(all, index + 1);
                }
                return None;
            }
            if first.is_some() {
                normalized.push('/');
            }
            normalized.append(piece);
            proof {
                let before = names;
                names = names.push(piece@);
                assert(names.drop_last() =~= before);
                assert(normalized@ =~= paths::joined(names, '/'));
            }
            if first.is_none() {
                first = Some(String::from_str(piece));
            }
            index += 1;
        }
        assert(all.subrange(0, all.len() as int) =~= all);
        if normalized.as_str().as_bytes().len() > BROWSER_RELATIVE_PATH_BYTES_LIMIT {
            return None;
        }
        let first = match first {
            Some(first) => first,
            None => String::new(),
        };
        if (self.is_platform_path(normalized.as_str()) || self.is_reserved_component(
            first.as_str(),
        )) && !str_eq(
            raw_path,
            concat("/", encode_uri(normalized.as_str()).as_str()).as_str(),
        ) {
            return None;
        }
        Some(RoutePath { path: normalized })
    }

    /// The names of a mutation target, which starts with a slash.
    pub open spec fn target_names(self, value: Seq<char>) -> Seq<Seq<char>> {
        text::split_pieces(value.drop_first(), '/')
    }

    /// What a mutation can name. Nothing is normalized, since the value names
    /// what is changed.
    pub open spec fn is_browser_target(self, value: Seq<char>) -> bool {
        let relative = value.drop_first();
        let names = self.target_names(value);
        &&& value.len() > 1
        &&& value[0] == '/'
        &&& !under_platform(self.platform(), relative)
        &&& encode_utf8(relative).len() <= BROWSER_RELATIVE_PATH_BYTES_LIMIT
        &&& !relative.contains('\0')
        &&& forall|i: int| 0 <= i < names.len() ==> is_usable_name(#[trigger] names[i])
        &&& !self.reserves(names[0])
    }

    /// Reads the target of a mutation.
    pub fn parse_browser_target(&self, value: &str) -> (target: Option<RootedPath>)
        ensures
            target is Some <==> self.is_browser_target(value@),
            target matches Some(target) ==> target@ == self.root() + encoded_names(
                self.target_names(value@),
            ),
    {
        proof {
            reveal_strlit("/");
        }
        let relative = match strip_prefix(value, "/") {
            Some(relative) => relative,
            None => {
                assert(value@.len() > 0 && value@[0] == '/' ==> value@.subrange(0, 1) =~= "/"@);
                return None;
            },
        };
        assert(value@.drop_first() =~= relative@);
        if relative.is_empty() || self.is_platform_path(relative) || relative.as_bytes().len()
            > BROWSER_RELATIVE_PATH_BYTES_LIMIT || contains_char(relative, '\0') {
            return None;
        }
        let names = split_text(relative, '/');
        let ghost all = text::split_pieces(relative@, '/');
        proof {
            text::lemma_split_has_a_piece(relative@, '/');
        }
        let mut resolved = self.root.copy();
        let mut index: usize = 0;
        assert(self.root() + encoded_names(all.subrange(0, 0)) =~= self.root());
        while index < names.len()
            invariant
                index <= names@.len(),
                text::texts(names@) == all,
                all == self.target_names(value@),
                resolved@ == self.root() + encoded_names(all.subrange(0, index as int)),
                forall|i: int| 0 <= i < index ==> is_usable_name(#[trigger] all[i]),
                index > 0 ==> !self.reserves(all[0]),
            decreases names@.len() - index,
        {
            let name = names[index].as_str();
            assert(all[index as int] == name@);
            if !check_usable_name(name) || (index == 0 && self.is_reserved_component(name)) {
                return None;
            }
            resolved.push(name.as_bytes());
            index += 1;
            assert(resolved@ =~= self.root() + encoded_names(all.subrange(0, index as int)));
        }
        assert(all.subrange(0, all.len() as int) =~= all);
        Some(RootedPath { path: resolved })
    }

    /// What can be listed.
    pub open spec fn is_list_target(self, value: Seq<char>) -> bool {
        value == "/"@ || self.is_browser_target(value)
    }

    /// The path of what can be listed.
    pub open spec fn list_target(self, value: Seq<char>) -> Seq<Seq<u8>> {
        if value == "/"@ {
            self.root()
        } else {
            self.root() + encoded_names(self.target_names(value))
        }
    }

    /// Reads the path of a directory to list: the root, or what a mutation can
    /// name.
    pub fn parse_list_target(&self, value: &str) -> (target: Option<RootedPath>)
        ensures
            target is Some <==> self.is_list_target(value@),
            target matches Some(target) ==> target@ == self.list_target(value@),
    {
        if str_eq(value, "/") {
            Some(RootedPath { path: self.root.copy() })
        } else {
            self.parse_browser_target(value)
        }
    }

    /// The path of a route below the root.
    pub open spec fn rooted(self, route: Seq<char>) -> Seq<Seq<u8>> {
        if route.len() == 0 {
            self.root()
        } else {
            self.root() + encoded_names(text::split_pieces(route, '/'))
        }
    }

    /// The path of a route.
    pub fn resolve_route(&self, route: &RoutePath) -> (path: RootedPath)
        ensures
            path@ == self.rooted(route@),
    {
        if route.as_str().is_empty() {
            return RootedPath { path: self.root.copy() };
        }
        let names = split_text(route.as_str(), '/');
        let ghost all = text::split_pieces(route@, '/');
        let mut resolved = self.root.copy();
        let mut index: usize = 0;
        assert(self.root() + encoded_names(all.subrange(0, 0)) =~= self.root());
        while index < names.len()
            invariant
                index <= names@.len(),
                text::texts(names@) == all,
                resolved@ == self.root() + encoded_names(all.subrange(0, index as int)),
            decreases names@.len() - index,
        {
            assert(all[index as int] == names@[index as int]@);
            resolved.push(names[index].as_str().as_bytes());
            index += 1;
            assert(resolved@ =~= self.root() + encoded_names(all.subrange(0, index as int)));
        }
        assert(all.subrange(0, all.len() as int) =~= all);
        RootedPath { path: resolved }
    }

    pub fn is_managed_root(&self, path: &LexicalPath) -> (result: bool)
        ensures
            result == (path@ == self.root()),
    {
        path.equals(&self.root)
    }

    /// Whether a path is a platform path, lies below one or above one.
    pub open spec fn protects(self, path: Seq<Seq<u8>>) -> bool {
        let relative = paths::joined(
            path.subrange(self.root().len() as int, path.len() as int),
            47u8,
        );
        &&& text::has_prefix(path, self.root())
        &&& valid_utf8(relative)
        &&& under_platform(self.platform(), decode_utf8(relative)) || above_platform(
            self.platform(),
            decode_utf8(relative),
        )
    }

    /// Whether changing a path could shadow what the platform answers.
    pub fn protects_platform_namespace(&self, path: &LexicalPath) -> (result: bool)
        ensures
            result == self.protects(path@),
    {
        if !path.starts_with(&self.root) {
            return false;
        }
        let relative = path.suffix(self.root.len()).to_bytes();
        match utf8_text(relative.as_slice()) {
            Some(relative) => self.is_platform_path(relative.as_str()) || self.is_platform_ancestor(
                relative.as_str(),
            ),
            None => false,
        }
    }
}

proof fn lemma_refusal_is_final(pieces: Seq<Seq<char>>, length: int)
    requires
        0 <= length <= pieces.len(),
        route_names(pieces.subrange(0, length)) is None,
    ensures
        route_names(pieces) is None,
    decreases pieces.len() - length,
{
    if length == pieces.len() {
        assert(pieces.subrange(0, length) =~= pieces);
    } else {
        assert(pieces.subrange(0, length + 1).drop_last() =~= pieces.subrange(0, length));
        lemma_refusal_is_final(pieces, length + 1);
    }
}

/// A mutation target lies strictly below the root, at a depth of its own names,
/// each of which is usable and holds no slash, and not in the namespace of the
/// server or the platform.
pub proof fn law_targets_stay_below_the_root(policy: PathPolicy, value: Seq<char>)
    requires
        policy.is_browser_target(value),
    ensures
        ({
            let names = policy.target_names(value);
            let path = policy.root() + encoded_names(names);
            &&& names.len() > 0
            &&& path.len() > policy.root().len()
            &&& text::has_prefix(path, policy.root())
            &&& !policy.reserves(names[0])
            &&& !under_platform(policy.platform(), value.drop_first())
            &&& forall|i: int|
                0 <= i < names.len() ==> is_usable_name(#[trigger] names[i])
                    && !names[i].contains('/')
        }),
{
    let relative = value.drop_first();
    text::lemma_split_has_a_piece(relative, '/');
    text::lemma_pieces_lack_the_separator(relative, '/');
    let path = policy.root() + encoded_names(policy.target_names(value));
    assert(path.subrange(0, policy.root().len() as int) =~= policy.root());
}

/// A route is the list of its names with slashes between them: every name is
/// usable and holds no slash, and the path of the route is the root followed by
/// those names.
pub proof fn law_routes_stay_below_the_root(policy: PathPolicy, raw: Seq<char>)
    requires
        policy.route_of(raw) is Some,
    ensures
        ({
            let route = policy.route_of(raw)->0;
            &&& encode_utf8(route).len() <= BROWSER_RELATIVE_PATH_BYTES_LIMIT
            &&& text::has_prefix(policy.rooted(route), policy.root())
            &&& route.len() > 0 ==> forall|i: int|
                0 <= i < text::split_pieces(route, '/').len() ==> is_usable_name(
                    #[trigger] text::split_pieces(route, '/')[i],
                ) && !text::split_pieces(route, '/')[i].contains('/')
        }),
{
    let route = policy.route_of(raw)->0;
    let path = uri::decoded_uri(raw)->0;
    let pieces = text::split_pieces(path, '/');
    let names = route_names(pieces)->0;
    lemma_route_names_are_usable(pieces);
    text::lemma_pieces_lack_the_separator(path, '/');
    text::lemma_pieces_lack_the_separator(route, '/');
    assert forall|i: int| 0 <= i < names.len() implies !(#[trigger] names[i]).contains('/') by {
        let j = choose|j: int| 0 <= j < pieces.len() && pieces[j] == names[i];
        assert(!pieces[j].contains('/'));
    }
    if names.len() > 0 {
        text::lemma_split_of_joined(names, '/');
    }
    assert(policy.rooted(route).subrange(0, policy.root().len() as int) =~= policy.root());
}

/// A reserved namespace has one spelling: a raw path that leads into it is the
/// canonical encoding of the route.
pub proof fn law_reserved_routes_are_canonical(policy: PathPolicy, raw: Seq<char>)
    requires
        policy.route_of(raw) is Some,
        ({
            let route = policy.route_of(raw)->0;
            under_platform(policy.platform(), route) || (route.len() > 0 && policy.reserves(
                text::split_pieces(route, '/')[0],
            ))
        }),
    ensures
        raw == "/"@ + uri::percent_encoded(encode_utf8(policy.route_of(raw)->0)),
{
    let route = policy.route_of(raw)->0;
    let path = uri::decoded_uri(raw)->0;
    let pieces = text::split_pieces(path, '/');
    let names = route_names(pieces)->0;
    lemma_route_names_are_usable(pieces);
    text::lemma_pieces_lack_the_separator(path, '/');
    assert forall|i: int| 0 <= i < names.len() implies !(#[trigger] names[i]).contains('/') by {
        let j = choose|j: int| 0 <= j < pieces.len() && pieces[j] == names[i];
        assert(!pieces[j].contains('/'));
    }
    if names.len() > 0 {
        text::lemma_split_of_joined(names, '/');
    }
}

/// A path is the platform's where it is one of its paths or goes on behind one with a
/// slash, and it lies above one where one of them goes on behind it with a slash. A path
/// that only starts with the same letters is neither.
pub proof fn law_platform_paths_are_whole_names(platform: Seq<Seq<char>>, relative: Seq<char>)
    ensures
        under_platform(platform, relative) <==> exists|i: int|
            0 <= i < platform.len() && (relative == #[trigger] platform[i] || exists|
                below: Seq<char>,
            |
                relative == #[trigger] (platform[i] + "/"@ + below)),
        above_platform(platform, relative) <==> relative.len() > 0 && exists|i: int|
            0 <= i < platform.len() && exists|below: Seq<char>| #[trigger]
                platform[i] == #[trigger] (relative + "/"@ + below),
{
    if under_platform(platform, relative) {
        let i = choose|i: int|
            0 <= i < platform.len() && (relative == #[trigger] platform[i] || text::has_prefix(
                relative,
                platform[i] + "/"@,
            ));
        if relative != platform[i] {
            text::law_affixes_are_parts(relative, platform[i] + "/"@);
            let below = choose|below: Seq<char>| relative == #[trigger] (platform[i] + "/"@ + below);
            assert(relative == platform[i] + "/"@ + below);
        }
    }
    if exists|i: int|
        0 <= i < platform.len() && (relative == #[trigger] platform[i] || exists|below: Seq<char>|
            relative == #[trigger] (platform[i] + "/"@ + below)) {
        let i = choose|i: int|
            0 <= i < platform.len() && (relative == #[trigger] platform[i] || exists|
                below: Seq<char>,
            |
                relative == #[trigger] (platform[i] + "/"@ + below));
        if relative != platform[i] {
            text::law_affixes_are_parts(relative, platform[i] + "/"@);
        }
    }
    if above_platform(platform, relative) {
        let i = choose|i: int|
            0 <= i < platform.len() && text::has_prefix(#[trigger] platform[i], relative + "/"@);
        text::law_affixes_are_parts(platform[i], relative + "/"@);
        let below = choose|below: Seq<char>| platform[i] == #[trigger] (relative + "/"@ + below);
        assert(platform[i] == relative + "/"@ + below);
    }
    if relative.len() > 0 && exists|i: int|
        0 <= i < platform.len() && exists|below: Seq<char>| #[trigger]
            platform[i] == #[trigger] (relative + "/"@ + below) {
        let i = choose|i: int|
            0 <= i < platform.len() && exists|below: Seq<char>| #[trigger]
                platform[i] == #[trigger] (relative + "/"@ + below);
        text::law_affixes_are_parts(platform[i], relative + "/"@);
    }
}

/// A name can be used where it has one to 255 bytes, is neither of the names that stand
/// for directories, and is not one of the server's own.
pub proof fn law_ordinary_names_are_usable(name: Seq<char>)
    ensures
        is_usable_name(name) <==> 1 <= name.len() && encode_utf8(name).len() <= 255 && name != seq![
            '.',
        ] && name != seq!['.', '.'] && internal_names::internal_kind(name) is None,
{
    reveal_strlit(".");
    reveal_strlit("..");
    assert("."@ =~= seq!['.']);
    assert(".."@ =~= seq!['.', '.']);
}

/// The names that the server keeps to itself at the root: its own, that of its assets,
/// and those of the platform.
pub proof fn law_reserved_names(policy: PathPolicy, component: Seq<char>)
    ensures
        policy.reserves(component) <==> component == "__dufs__"@ || component == policy.assets()
            || under_platform(policy.platform(), component),
{
}

proof fn lemma_joined_behind_nothing(names: Seq<Seq<char>>)
    requires
        names.len() > 0,
    ensures
        paths::joined(seq![Seq::<char>::empty()] + names, '/') == seq!['/'] + paths::joined(
            names,
            '/',
        ),
    decreases names.len(),
{
    let longer = seq![Seq::<char>::empty()] + names;
    if names.len() == 1 {
        assert(longer.drop_last() =~= seq![Seq::<char>::empty()]);
        assert(paths::joined(longer.drop_last(), '/') =~= Seq::<char>::empty());
        assert(paths::joined(longer, '/') =~= seq!['/'] + names[0]);
    } else {
        lemma_joined_behind_nothing(names.drop_last());
        assert(longer.drop_last() =~= seq![Seq::<char>::empty()] + names.drop_last());
        assert(paths::joined(longer, '/') =~= seq!['/'] + paths::joined(names, '/'));
    }
}

proof fn lemma_joined_holds_what_names_hold(names: Seq<Seq<char>>, character: char)
    requires
        character != '/',
        forall|i: int| 0 <= i < names.len() ==> !(#[trigger] names[i]).contains(character),
    ensures
        !paths::joined(names, '/').contains(character),
    decreases names.len(),
{
    let joined = paths::joined(names, '/');
    if names.len() == 1 {
        assert(!names[0].contains(character));
    } else if names.len() > 1 {
        let front = names.drop_last();
        assert forall|i: int| 0 <= i < front.len() implies !(#[trigger] front[i]).contains(
            character,
        ) by {
            assert(front[i] == names[i]);
        }
        lemma_joined_holds_what_names_hold(front, character);
        let head = paths::joined(front, '/');
        assert(!names[names.len() - 1].contains(character));
        assert forall|i: int| 0 <= i < joined.len() implies joined[i] != character by {
            if i < head.len() {
                assert(head.contains(head[i]));
            } else if i > head.len() {
                assert(names.last().contains(names.last()[i - head.len() - 1]));
            }
        }
    }
}

proof fn lemma_usable_names_are_routed(names: Seq<Seq<char>>)
    requires
        forall|i: int| 0 <= i < names.len() ==> is_usable_name(#[trigger] names[i]),
    ensures
        route_names(seq![Seq::<char>::empty()] + names) == Some(names),
    decreases names.len(),
{
    let longer = seq![Seq::<char>::empty()] + names;
    if names.len() == 0 {
        assert(longer.drop_last() =~= Seq::empty());
        assert(route_names(longer.drop_last()) == Some(Seq::<Seq<char>>::empty()));
        assert(names =~= Seq::empty());
    } else {
        let front = names.drop_last();
        assert forall|i: int| 0 <= i < front.len() implies is_usable_name(#[trigger] front[i]) by {
            assert(front[i] == names[i]);
        }
        lemma_usable_names_are_routed(front);
        assert(longer.drop_last() =~= seq![Seq::<char>::empty()] + front);
        assert(is_usable_name(names[names.len() - 1]));
        assert(front.push(names.last()) =~= names);
    }
}

/// Every path of usable names that is not too long, in its canonical spelling, is a
/// route, and leads to the entry with those names below the root. That holds of the
/// reserved names as well.
pub proof fn law_canonical_paths_are_routes(policy: PathPolicy, names: Seq<Seq<char>>)
    requires
        names.len() > 0,
        forall|i: int|
            0 <= i < names.len() ==> is_usable_name(#[trigger] names[i]) && !names[i].contains('/')
                && !names[i].contains('\0'),
        encode_utf8(paths::joined(names, '/')).len() <= 4095,
    ensures
        policy.route_of("/"@ + uri::percent_encoded(encode_utf8(paths::joined(names, '/'))))
            == Some(paths::joined(names, '/')),
        policy.rooted(paths::joined(names, '/')) == policy.root() + encoded_names(names),
{
    reveal_strlit("/");
    let joined = paths::joined(names, '/');
    let raw = "/"@ + uri::percent_encoded(encode_utf8(joined));
    let longer = seq![Seq::<char>::empty()] + names;
    uri::law_decoding_undoes_encoding(joined);
    lemma_joined_behind_nothing(names);
    assert("/"@ + joined =~= seq!['/'] + joined);
    lemma_joined_holds_what_names_hold(names, '\0');
    assert forall|i: int| 0 <= i < longer.len() implies !(#[trigger] longer[i]).contains('/') by {
        if i > 0 {
            assert(longer[i] == names[i - 1]);
        }
    }
    text::lemma_split_of_joined(longer, '/');
    lemma_usable_names_are_routed(names);
    let path = seq!['/'] + joined;
    assert(!path.contains('\0')) by {
        assert forall|i: int| 0 <= i < path.len() implies path[i] != '\0' by {
            if i > 0 {
                assert(joined.contains(joined[i - 1]));
            }
        }
    }
    assert forall|i: int| 0 <= i < names.len() implies !(#[trigger] names[i]).contains('/') by {
        assert(is_usable_name(names[i]));
    }
    text::lemma_split_of_joined(names, '/');
    if joined.len() == 0 {
        assert(text::split_pieces(joined, '/') =~= seq![Seq::<char>::empty()]);
        assert(is_usable_name(names[0]));
    }
}

/// The root is a route of its own.
pub proof fn law_the_root_is_a_route(policy: PathPolicy)
    requires
        !under_platform(policy.platform(), Seq::<char>::empty()),
        policy.assets().len() > 0,
    ensures
        policy.route_of("/"@) == Some(Seq::<char>::empty()),
        policy.rooted(Seq::<char>::empty()) == policy.root(),
{
    reveal_strlit("/");
    reveal_strlit("__dufs__");
    let nothing = Seq::<char>::empty();
    uri::law_decoding_undoes_encoding(nothing);
    assert(uri::percent_encoded(encode_utf8(nothing)) =~= nothing);
    assert("/"@ + nothing =~= "/"@);
    assert("/"@.drop_last() =~= nothing);
    assert(text::split_pieces("/"@.drop_last(), '/') =~= seq![nothing]);
    assert(text::split_pieces("/"@, '/') =~= seq![nothing, nothing]);
    let pieces = seq![nothing, nothing];
    assert(pieces.drop_last() =~= seq![nothing]);
    assert(pieces.drop_last().drop_last() =~= Seq::<Seq<char>>::empty());
    assert(route_names(pieces.drop_last().drop_last()) == Some(Seq::<Seq<char>>::empty()));
    assert(route_names(pieces.drop_last()) == Some(Seq::<Seq<char>>::empty()));
    assert(route_names(pieces) == Some(Seq::<Seq<char>>::empty()));
    assert("__dufs__"@.len() == 8);
}

/// Repeated slashes, and dots behind the first name, change nothing about a route.
pub proof fn law_empty_pieces_drop_out(
    before: Seq<Seq<char>>,
    piece: Seq<char>,
    after: Seq<Seq<char>>,
)
    requires
        piece.len() == 0 || (piece == "."@ && route_names(before) is Some && route_names(
            before,
        )->0.len() > 0),
    ensures
        route_names(before.push(piece) + after) == route_names(before + after),
    decreases after.len(),
{
    if after.len() == 0 {
        assert(before.push(piece) + after =~= before.push(piece));
        assert(before + after =~= before);
        assert(before.push(piece).drop_last() =~= before);
    } else {
        law_empty_pieces_drop_out(before, piece, after.drop_last());
        assert((before.push(piece) + after).drop_last() =~= before.push(piece)
            + after.drop_last());
        assert((before + after).drop_last() =~= before + after.drop_last());
    }
}

/// A way up is never a route, nor is a name that cannot be used.
pub proof fn law_unusable_pieces_refuse_the_route(
    before: Seq<Seq<char>>,
    piece: Seq<char>,
    after: Seq<Seq<char>>,
)
    requires
        piece == ".."@ || (piece.len() > 0 && piece != "."@ && !is_usable_name(piece)),
    ensures
        route_names(before.push(piece) + after) is None,
    decreases after.len(),
{
    reveal_strlit(".");
    reveal_strlit("..");
    assert("."@.len() != ".."@.len());
    if after.len() == 0 {
        assert(before.push(piece) + after =~= before.push(piece));
        assert(before.push(piece).drop_last() =~= before);
    } else {
        law_unusable_pieces_refuse_the_route(before, piece, after.drop_last());
        assert((before.push(piece) + after).drop_last() =~= before.push(piece)
            + after.drop_last());
    }
}

/// Every path of usable names can be named by a mutation and listed, unless it is too
/// long, the platform's, or in a reserved namespace; and it leads to the entry with
/// those names below the root.
pub proof fn law_ordinary_paths_are_targets(policy: PathPolicy, names: Seq<Seq<char>>)
    requires
        names.len() > 0,
        forall|i: int|
            0 <= i < names.len() ==> is_usable_name(#[trigger] names[i]) && !names[i].contains('/')
                && !names[i].contains('\0'),
        encode_utf8(paths::joined(names, '/')).len() <= 4095,
        !under_platform(policy.platform(), paths::joined(names, '/')),
        !policy.reserves(names[0]),
    ensures
        policy.is_browser_target(seq!['/'] + paths::joined(names, '/')),
        policy.is_list_target(seq!['/'] + paths::joined(names, '/')),
        policy.target_names(seq!['/'] + paths::joined(names, '/')) == names,
        policy.list_target(seq!['/'] + paths::joined(names, '/')) == policy.root() + encoded_names(
            names,
        ),
        policy.is_list_target("/"@),
        policy.list_target("/"@) == policy.root(),
        !policy.is_browser_target("/"@),
{
    reveal_strlit("/");
    let joined = paths::joined(names, '/');
    let value = seq!['/'] + joined;
    assert(value.drop_first() =~= joined);
    assert forall|i: int| 0 <= i < names.len() implies !(#[trigger] names[i]).contains('/') by {
        assert(is_usable_name(names[i]));
    }
    text::lemma_split_of_joined(names, '/');
    assert forall|i: int| 0 <= i < names.len() implies !(#[trigger] names[i]).contains('\0') by {
        assert(is_usable_name(names[i]));
    }
    lemma_joined_holds_what_names_hold(names, '\0');
    if joined.len() == 0 {
        assert(text::split_pieces(joined, '/') =~= seq![Seq::<char>::empty()]);
        assert(is_usable_name(names[0]));
    }
    assert(value.len() > 1);
    assert(value != "/"@);
}

/// A path outside of the root is not protected, and one inside is exactly where what
/// lies below the root is the platform's or lies above what is.
pub proof fn law_protected_paths_touch_the_platform(
    policy: PathPolicy,
    below: Seq<Seq<u8>>,
    outside: Seq<Seq<u8>>,
)
    ensures
        policy.protects(policy.root() + below) <==> valid_utf8(paths::joined(below, 47u8)) && (
        under_platform(policy.platform(), decode_utf8(paths::joined(below, 47u8)))
            || above_platform(policy.platform(), decode_utf8(paths::joined(below, 47u8)))),
        (forall|rest: Seq<Seq<u8>>| outside != #[trigger] (policy.root() + rest))
            ==> !policy.protects(outside),
        policy.platform().len() == 0 ==> !policy.protects(outside),
{
    let path = policy.root() + below;
    assert(path.subrange(policy.root().len() as int, path.len() as int) =~= below);
    assert(path.subrange(0, policy.root().len() as int) =~= policy.root());
    text::law_affixes_are_parts(outside, policy.root());
}

} // verus!
