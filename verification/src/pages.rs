//! The pages of the site and the categories of its challenges.
use crate::admin_rules::{
    endpoint_of, label_of, logo_color_of, logo_key_of, navigation_order_of, page_content_of,
    validate_challenge_category_logo_color, validate_challenge_category_logo_key,
    validate_challenge_category_name, validate_custom_page_endpoint, validate_page_content,
    validate_page_label, validate_page_navigation_order, validate_page_visibility, visibility_of,
};
use crate::auth::{admin_visitor, is_admin_visitor, CurrentUser};
use crate::error::{bad, conflict, forbidden, not_found, shown, str_of, text_of, ApiError, Failure};
use crate::json::Json;
use crate::text::same;
use vstd::prelude::*;

verus! {

// ---------------------------------------------------------------------------
// Reading a page
// ---------------------------------------------------------------------------

/// Whether a visitor may read a page; `visibility` is that of the page, where there is one.
pub open spec fn page_access(user: Option<&CurrentUser>, visibility: Option<Seq<char>>) -> Result<
    (),
    Failure,
> {
    match visibility {
        Some(word) => if word == "public"@ || (word == "private"@ && user is Some) || (word
            == "invisible"@ && is_admin_visitor(user)) {
            Ok(())
        } else if word == "private"@ {
            Err(forbidden("Authentication required"@))
        } else {
            Err(not_found("Page not found"@))
        },
        None => Err(not_found("Page not found"@)),
    }
}

pub fn public_page_response(user: Option<&CurrentUser>, visibility: Option<&str>) -> (result: Result<
    (),
    ApiError,
>)
    ensures
        shown(result) == page_access(user, str_of(visibility)),
{
    match visibility {
        Some(word) => {
            if same(word, "public") {
                return Ok(());
            }
            if same(word, "private") {
                return if user.is_some() {
                    Ok(())
                } else {
                    Err(ApiError::forbidden("Authentication required"))
                };
            }
            if same(word, "invisible") && admin_visitor(user) {
                return Ok(());
            }
            Err(ApiError::not_found("Page not found"))
        },
        None => Err(ApiError::not_found("Page not found")),
    }
}

// ---------------------------------------------------------------------------
// Writing a page
// ---------------------------------------------------------------------------

/// What a page holds.
pub struct PageContent {
    pub label: String,
    pub endpoint: String,
    pub content: String,
    pub visibility: String,
    pub navigation_order: i32,
}

/// What a page holds, by value.
pub type PageContentView = (Seq<char>, Seq<char>, Seq<char>, Seq<char>, i32);

impl View for PageContent {
    type V = PageContentView;

    open spec fn view(&self) -> PageContentView {
        (self.label@, self.endpoint@, self.content@, self.visibility@, self.navigation_order)
    }
}

pub open spec fn shown_page(result: Result<PageContent, ApiError>) -> Result<
    PageContentView,
    Failure,
> {
    match result {
        Ok(page) => Ok(page@),
        Err(error) => Err(error@),
    }
}

pub open spec fn new_page(input: PageContentView) -> Result<PageContentView, Failure> {
    match (
        label_of(input.0, "Page label is invalid"@),
        endpoint_of(input.1),
        page_content_of(input.2),
        visibility_of(input.3),
        navigation_order_of(input.4, false),
    ) {
        (Err(failure), _, _, _, _) => Err(failure),
        (_, Err(failure), _, _, _) => Err(failure),
        (_, _, Err(failure), _, _) => Err(failure),
        (_, _, _, Err(failure), _) => Err(failure),
        (_, _, _, _, Err(failure)) => Err(failure),
        (Ok(label), Ok(endpoint), Ok(content), Ok(visibility), Ok(order)) => Ok(
            (label, endpoint, content, visibility, order),
        ),
    }
}

/// The page that a request creates.
pub fn create_page(user: &CurrentUser, input: &PageContent) -> (result: Result<
    PageContent,
    ApiError,
>)
    ensures
        shown_page(result) == (if user.admin() {
            new_page(input@)
        } else {
            Err(forbidden("Administrator access is required"@))
        }),
{
    if let Err(error) = crate::auth::require_admin(user) {
        return Err(error);
    }
    let label = match validate_page_label(input.label.as_str()) {
        Ok(value) => value,
        Err(error) => return Err(error),
    };
    let endpoint = match validate_custom_page_endpoint(input.endpoint.as_str()) {
        Ok(value) => value,
        Err(error) => return Err(error),
    };
    let content = match validate_page_content(input.content.as_str()) {
        Ok(value) => value,
        Err(error) => return Err(error),
    };
    let visibility = match validate_page_visibility(input.visibility.as_str()) {
        Ok(value) => value,
        Err(error) => return Err(error),
    };
    match validate_page_navigation_order(input.navigation_order, false) {
        Ok(navigation_order) => Ok(
            PageContent { label, endpoint, content, visibility, navigation_order },
        ),
        Err(error) => Err(error),
    }
}

/// A change of a page: what is given is changed.
pub struct PagePatch {
    pub revision: i64,
    pub label: Option<String>,
    pub endpoint: Option<String>,
    pub content: Option<String>,
    pub visibility: Option<String>,
    pub navigation_order: Option<i32>,
}

/// A page as it is stored.
pub struct StoredPage {
    pub page: PageContent,
    pub page_type: String,
    pub revision: i64,
}

/// What is wrong with the form of a change.
pub open spec fn patch_problem(admin: bool, patch: PagePatch) -> Option<Failure> {
    if !admin {
        Some(forbidden("Administrator access is required"@))
    } else if patch.revision < 1 {
        Some(bad("Page revision is invalid"@))
    } else if patch.label is None && patch.endpoint is None && patch.content is None
        && patch.visibility is None && patch.navigation_order is None {
        Some(bad("No page changes were supplied"@))
    } else {
        None
    }
}

/// What must not change: of the home page all but its label and content, of a page of the site's
/// own its label, endpoint and content.
pub open spec fn fixed_problem(patch: PagePatch, page_type: Seq<char>) -> Option<Failure> {
    if page_type == "home"@ {
        if patch.endpoint is Some || patch.visibility is Some || patch.navigation_order is Some {
            Some(bad("The root endpoint, visibility, and order are fixed"@))
        } else {
            None
        }
    } else if page_type == "system"@ {
        if patch.label is Some || patch.endpoint is Some || patch.content is Some {
            Some(bad("System page labels, endpoints, and content cannot be changed"@))
        } else {
            None
        }
    } else if page_type == "custom"@ {
        None
    } else {
        Some(conflict("Page type is invalid"@))
    }
}

/// The label after a change.
pub open spec fn patched_label(patch: PagePatch, current: Seq<char>) -> Result<Seq<char>, Failure> {
    match patch.label {
        Some(text) => label_of(text@, "Page label is invalid"@),
        None => Ok(current),
    }
}

pub open spec fn patched_endpoint(patch: PagePatch, current: Seq<char>) -> Result<
    Seq<char>,
    Failure,
> {
    match patch.endpoint {
        Some(text) => endpoint_of(text@),
        None => Ok(current),
    }
}

pub open spec fn patched_content(patch: PagePatch, current: Seq<char>) -> Result<
    Seq<char>,
    Failure,
> {
    match patch.content {
        Some(text) => page_content_of(text@),
        None => Ok(current),
    }
}

pub open spec fn patched_visibility(patch: PagePatch, current: Seq<char>) -> Result<
    Seq<char>,
    Failure,
> {
    match patch.visibility {
        Some(text) => visibility_of(text@),
        None => Ok(current),
    }
}

pub open spec fn patched_order(patch: PagePatch, current: i32) -> i32 {
    match patch.navigation_order {
        Some(order) => order,
        None => current,
    }
}

pub open spec fn changed_page(patch: PagePatch, current: StoredPage) -> Result<
    PageContentView,
    Failure,
> {
    let page = current.page@;
    match (
        patched_label(patch, page.0),
        patched_endpoint(patch, page.1),
        patched_content(patch, page.2),
        patched_visibility(patch, page.3),
        navigation_order_of(patched_order(patch, page.4), current.page_type@ == "home"@),
    ) {
        (Err(failure), _, _, _, _) => Err(failure),
        (_, Err(failure), _, _, _) => Err(failure),
        (_, _, Err(failure), _, _) => Err(failure),
        (_, _, _, Err(failure), _) => Err(failure),
        (_, _, _, _, Err(failure)) => Err(failure),
        (Ok(label), Ok(endpoint), Ok(content), Ok(visibility), Ok(order)) => Ok(
            (label, endpoint, content, visibility, order),
        ),
    }
}

/// The course of a change; `current` is the page, once it has been locked and read.
pub open spec fn page_course(admin: bool, patch: PagePatch, current: Option<StoredPage>) -> Result<
    PageContentView,
    Failure,
> {
    match (patch_problem(admin, patch), current) {
        (Some(failure), _) => Err(failure),
        (None, None) => Err(not_found("Page not found"@)),
        (None, Some(page)) => if page.revision != patch.revision {
            Err(conflict("This page changed since it was loaded; refresh before saving"@))
        } else {
            match fixed_problem(patch, page.page_type@) {
                Some(failure) => Err(failure),
                None => changed_page(patch, page),
            }
        },
    }
}

fn check_fixed(patch: &PagePatch, page_type: &str) -> (result: Result<(), ApiError>)
    ensures
        shown(result) == crate::fields::pass_or(fixed_problem(*patch, page_type@)),
{
    if same(page_type, "home") {
        if patch.endpoint.is_some() || patch.visibility.is_some()
            || patch.navigation_order.is_some() {
            return Err(ApiError::bad_request("The root endpoint, visibility, and order are fixed"));
        }
        return Ok(());
    }
    if same(page_type, "system") {
        if patch.label.is_some() || patch.endpoint.is_some() || patch.content.is_some() {
            return Err(
                ApiError::bad_request(
                    "System page labels, endpoints, and content cannot be changed",
                ),
            );
        }
        return Ok(());
    }
    if same(page_type, "custom") {
        Ok(())
    } else {
        Err(ApiError::conflict("Page type is invalid"))
    }
}

fn apply_patch(patch: &PagePatch, current: &StoredPage) -> (result: Result<PageContent, ApiError>)
    ensures
        shown_page(result) == changed_page(*patch, *current),
{
    let label = match &patch.label {
        Some(text) => match validate_page_label(text.as_str()) {
            Ok(value) => value,
            Err(error) => return Err(error),
        },
        None => current.page.label.clone(),
    };
    let endpoint = match &patch.endpoint {
        Some(text) => match validate_custom_page_endpoint(text.as_str()) {
            Ok(value) => value,
            Err(error) => return Err(error),
        },
        None => current.page.endpoint.clone(),
    };
    let content = match &patch.content {
        Some(text) => match validate_page_content(text.as_str()) {
            Ok(value) => value,
            Err(error) => return Err(error),
        },
        None => current.page.content.clone(),
    };
    let visibility = match &patch.visibility {
        Some(text) => match validate_page_visibility(text.as_str()) {
            Ok(value) => value,
            Err(error) => return Err(error),
        },
        None => current.page.visibility.clone(),
    };
    let order: i32 = match patch.navigation_order {
        Some(order) => order,
        None => current.page.navigation_order,
    };
    match validate_page_navigation_order(order, same(current.page_type.as_str(), "home")) {
        Ok(navigation_order) => Ok(
            PageContent { label, endpoint, content, visibility, navigation_order },
        ),
        Err(error) => Err(error),
    }
}

/// The page after a change. It is saved under the revision that the change was made for.
pub fn update_page(user: &CurrentUser, patch: &PagePatch, current: Option<&StoredPage>) -> (result:
    Result<PageContent, ApiError>)
    ensures
        shown_page(result) == page_course(
            user.admin(),
            *patch,
            match current {
                Some(page) => Some(*page),
                None => None,
            },
        ),
{
    if let Err(error) = crate::auth::require_admin(user) {
        return Err(error);
    }
    if patch.revision < 1 {
        return Err(ApiError::bad_request("Page revision is invalid"));
    }
    if patch.label.is_none() && patch.endpoint.is_none() && patch.content.is_none()
        && patch.visibility.is_none() && patch.navigation_order.is_none() {
        return Err(ApiError::bad_request("No page changes were supplied"));
    }
    let page = match current {
        Some(page) => page,
        None => return Err(ApiError::not_found("Page not found")),
    };
    if page.revision != patch.revision {
        return Err(
            ApiError::conflict("This page changed since it was loaded; refresh before saving"),
        );
    }
    if let Err(error) = check_fixed(patch, page.page_type.as_str()) {
        return Err(error);
    }
    apply_patch(patch, page)
}

/// Whether a page of a type may be deleted.
pub open spec fn page_deletable(admin: bool, page_type: Option<Seq<char>>) -> bool {
    admin && page_type == Some("custom"@)
}

/// Only custom pages can be deleted.
pub fn delete_page(user: &CurrentUser, page_type: Option<&str>) -> (result: Result<(), ApiError>)
    ensures
        shown(result) == (if !user.admin() {
            Err(forbidden("Administrator access is required"@))
        } else {
            match str_of(page_type) {
                None => Err(not_found("Page not found"@)),
                Some(word) => if word == "custom"@ {
                    Ok::<(), Failure>(())
                } else {
                    Err(conflict("Built-in pages cannot be deleted"@))
                },
            }
        }),
        result is Ok <==> page_deletable(user.admin(), str_of(page_type)),
{
    if let Err(error) = crate::auth::require_admin(user) {
        return Err(error);
    }
    match page_type {
        None => Err(ApiError::not_found("Page not found")),
        Some(word) => if same(word, "custom") {
            Ok(())
        } else {
            Err(ApiError::conflict("Built-in pages cannot be deleted"))
        },
    }
}

/// The setting that follows the visibility of a page of the site's own, and its value.
pub open spec fn synced_setting(system_key: Seq<char>, visibility: Seq<char>) -> Result<
    Option<(Seq<char>, Seq<char>)>,
    Failure,
> {
    let value = if visibility == "invisible"@ {
        "admins"@
    } else {
        visibility
    };
    if system_key == "challenges"@ {
        Ok(Some(("challenge_visibility"@, value)))
    } else if system_key == "scoreboard"@ {
        Ok(Some(("score_visibility"@, value)))
    } else if system_key == "home"@ {
        Ok(None)
    } else {
        Err(conflict("System page key is invalid"@))
    }
}

pub open spec fn shown_sync(result: Result<Option<(&'static str, String)>, ApiError>) -> Result<
    Option<(Seq<char>, Seq<char>)>,
    Failure,
> {
    match result {
        Ok(Some((key, value))) => Ok(Some((key@, value@))),
        Ok(None) => Ok(None),
        Err(error) => Err(error@),
    }
}

pub fn sync_system_page_visibility(system_key: &str, visibility: &str) -> (result: Result<
    Option<(&'static str, String)>,
    ApiError,
>)
    ensures
        shown_sync(result) == synced_setting(system_key@, visibility@),
{
    let value = if same(visibility, "invisible") {
        "admins".to_owned()
    } else {
        visibility.to_owned()
    };
    if same(system_key, "challenges") {
        Ok(Some(("challenge_visibility", value)))
    } else if same(system_key, "scoreboard") {
        Ok(Some(("score_visibility", value)))
    } else if same(system_key, "home") {
        Ok(None)
    } else {
        Err(ApiError::conflict("System page key is invalid"))
    }
}

// ---------------------------------------------------------------------------
// Categories
// ---------------------------------------------------------------------------

/// A category: its name, its logo and the color of the logo.
pub struct Category {
    pub name: String,
    pub logo_key: Option<String>,
    pub logo_color: Option<String>,
}

pub type CategoryView = (Seq<char>, Option<Seq<char>>, Option<Seq<char>>);

impl View for Category {
    type V = CategoryView;

    open spec fn view(&self) -> CategoryView {
        (self.name@, text_of(self.logo_key), text_of(self.logo_color))
    }
}

pub open spec fn shown_category(result: Result<Category, ApiError>) -> Result<
    CategoryView,
    Failure,
> {
    match result {
        Ok(category) => Ok(category@),
        Err(error) => Err(error@),
    }
}

pub open spec fn new_category(input: CategoryView) -> Result<CategoryView, Failure> {
    match label_of(input.0, "Category value is invalid"@) {
        Err(failure) => Err(failure),
        Ok(name) => match logo_key_of(input.1) {
            Err(failure) => Err(failure),
            Ok(key) => match logo_color_of(input.2, key) {
                Err(failure) => Err(failure),
                Ok(color) => Ok((name, key, color)),
            },
        },
    }
}

fn as_str_option(value: &Option<String>) -> (result: Option<&str>)
    ensures
        str_of(result) == text_of(*value),
{
    match value {
        Some(text) => Some(text.as_str()),
        None => None,
    }
}

/// The category that a request creates.
pub fn create_challenge_category(user: &CurrentUser, input: &Category) -> (result: Result<
    Category,
    ApiError,
>)
    ensures
        shown_category(result) == (if user.admin() {
            new_category(input@)
        } else {
            Err(forbidden("Administrator access is required"@))
        }),
{
    if let Err(error) = crate::auth::require_admin(user) {
        return Err(error);
    }
    let name = match validate_challenge_category_name(input.name.as_str()) {
        Ok(name) => name,
        Err(error) => return Err(error),
    };
    let logo_key = match validate_challenge_category_logo_key(as_str_option(&input.logo_key)) {
        Ok(key) => key,
        Err(error) => return Err(error),
    };
    match validate_challenge_category_logo_color(
        as_str_option(&input.logo_color),
        as_str_option(&logo_key),
    ) {
        Ok(logo_color) => Ok(Category { name, logo_key, logo_color }),
        Err(error) => Err(error),
    }
}

/// A change of a category: a value that is absent stays, and `null` takes it away.
pub struct CategoryPatch {
    pub name: Option<Json>,
    pub logo_key: Option<Json>,
    pub logo_color: Option<Json>,
}

pub open spec fn patched_name(patch: CategoryPatch, current: Seq<char>) -> Result<
    Seq<char>,
    Failure,
> {
    match patch.name {
        None => Ok(current),
        Some(Json::Text(text)) => label_of(text@, "Category value is invalid"@),
        Some(_) => Err(bad("Category name must be a string"@)),
    }
}

pub open spec fn patched_logo(patch: CategoryPatch, current: Option<Seq<char>>) -> Result<
    Option<Seq<char>>,
    Failure,
> {
    match patch.logo_key {
        None => Ok(current),
        Some(Json::Null) => Ok(None),
        Some(Json::Text(text)) => logo_key_of(Some(text@)),
        Some(_) => Err(bad("Category logo_key must be a string or null"@)),
    }
}

/// The color after a change, where the logo after it is `key`.
pub open spec fn patched_color(
    patch: CategoryPatch,
    current: Option<Seq<char>>,
    key: Option<Seq<char>>,
) -> Result<Option<Seq<char>>, Failure> {
    match patch.logo_color {
        None => if key is None {
            Ok(None)
        } else {
            logo_color_of(current, key)
        },
        Some(Json::Null) => logo_color_of(None, key),
        Some(Json::Text(text)) => logo_color_of(Some(text@), key),
        Some(_) => Err(bad("Category logo_color must be a string or null"@)),
    }
}

pub open spec fn category_course(
    admin: bool,
    patch: CategoryPatch,
    current: Option<CategoryView>,
) -> Result<CategoryView, Failure> {
    if !admin {
        Err(forbidden("Administrator access is required"@))
    } else {
        match current {
            None => Err(not_found("Challenge category not found"@)),
            Some(category) => match patched_name(patch, category.0) {
                Err(failure) => Err(failure),
                Ok(name) => match patched_logo(patch, category.1) {
                    Err(failure) => Err(failure),
                    Ok(key) => match patched_color(patch, category.2, key) {
                        Err(failure) => Err(failure),
                        Ok(color) => Ok((name, key, color)),
                    },
                },
            },
        }
    }
}

/// The category after a change.
pub fn update_challenge_category(
    user: &CurrentUser,
    patch: &CategoryPatch,
    current: Option<&Category>,
) -> (result: Result<Category, ApiError>)
    ensures
        shown_category(result) == category_course(
            user.admin(),
            *patch,
            match current {
                Some(category) => Some(category@),
                None => None,
            },
        ),
{
    if let Err(error) = crate::auth::require_admin(user) {
        return Err(error);
    }
    let category = match current {
        Some(category) => category,
        None => return Err(ApiError::not_found("Challenge category not found")),
    };
    let name = match &patch.name {
        None => category.name.clone(),
        Some(Json::Text(text)) => match validate_challenge_category_name(text.as_str()) {
            Ok(name) => name,
            Err(error) => return Err(error),
        },
        Some(_) => return Err(ApiError::bad_request("Category name must be a string")),
    };
    let logo_key = match &patch.logo_key {
        None => match &category.logo_key {
            Some(key) => Some(key.clone()),
            None => None,
        },
        Some(Json::Null) => None,
        Some(Json::Text(text)) => match validate_challenge_category_logo_key(
            Some(text.as_str()),
        ) {
            Ok(key) => key,
            Err(error) => return Err(error),
        },
        Some(_) => return Err(ApiError::bad_request("Category logo_key must be a string or null")),
    };
    let requested = match &patch.logo_color {
        None => if logo_key.is_none() {
            None
        } else {
            as_str_option(&category.logo_color)
        },
        Some(Json::Null) => None,
        Some(Json::Text(text)) => Some(text.as_str()),
        Some(_) => return Err(
            ApiError::bad_request("Category logo_color must be a string or null"),
        ),
    };
    match validate_challenge_category_logo_color(requested, as_str_option(&logo_key)) {
        Ok(logo_color) => Ok(Category { name, logo_key, logo_color }),
        Err(error) => Err(error),
    }
}

/// Whether a category may be deleted.
pub open spec fn category_deletable(admin: bool, exists: bool, in_use: bool) -> bool {
    admin && exists && !in_use
}

/// A category stays as long as a challenge is in it.
pub fn delete_challenge_category(user: &CurrentUser, exists: bool, in_use: bool) -> (result: Result<
    (),
    ApiError,
>)
    ensures
        shown(result) == (if !user.admin() {
            Err(forbidden("Administrator access is required"@))
        } else if !exists {
            Err(not_found("Challenge category not found"@))
        } else if in_use {
            Err(conflict("Challenge category is still used by a challenge"@))
        } else {
            Ok::<(), Failure>(())
        }),
        result is Ok <==> category_deletable(user.admin(), exists, in_use),
{
    if let Err(error) = crate::auth::require_admin(user) {
        return Err(error);
    }
    if !exists {
        return Err(ApiError::not_found("Challenge category not found"));
    }
    if in_use {
        return Err(ApiError::conflict("Challenge category is still used by a challenge"));
    }
    Ok(())
}

// ---------------------------------------------------------------------------
// Laws
// ---------------------------------------------------------------------------

/// A page is saved only by a change that was made for the revision that is stored, and the pages
/// of the site's own keep their endpoints.
pub proof fn law_page_changes_are_safe(admin: bool, patch: PagePatch, current: StoredPage)
    requires
        page_course(admin, patch, Some(current)) is Ok,
    ensures
        admin,
        current.revision == patch.revision,
        current.page_type@ != "custom"@ ==> page_course(admin, patch, Some(current))->Ok_0.1
            == current.page.endpoint@,
        current.page_type@ == "home"@ ==> page_course(admin, patch, Some(current))->Ok_0.3
            == current.page.visibility@,
        current.page_type@ == "system"@ ==> page_course(admin, patch, Some(current))->Ok_0.2
            == current.page.content@,
{
    reveal_strlit("home");
    reveal_strlit("system");
    assert("home"@.len() != "system"@.len());
}

/// A category has a color exactly when it has a logo.
pub proof fn law_colors_go_with_logos(
    admin: bool,
    patch: CategoryPatch,
    current: CategoryView,
    input: CategoryView,
)
    ensures
        new_category(input) matches Ok(category) ==> (category.1 is Some <==> category.2 is Some),
        category_course(admin, patch, Some(current)) matches Ok(category) ==> (category.1 is Some
            <==> category.2 is Some),
{
}

/// A public page is read by everybody, a private one by whoever is signed in, and an invisible one
/// by administrators; what cannot be read is not found, or asks to sign in where that would help.
pub proof fn law_pages_are_read(user: Option<&CurrentUser>, word: Seq<char>)
    ensures
        page_access(user, Some("public"@)) is Ok,
        page_access(user, Some("private"@)) == (if user is Some {
            Ok::<(), Failure>(())
        } else {
            Err(forbidden("Authentication required"@))
        }),
        page_access(user, Some("invisible"@)) == (if user is Some && user->Some_0.admin() {
            Ok::<(), Failure>(())
        } else {
            Err(not_found("Page not found"@))
        }),
        word != "public"@ && word != "private"@ && word != "invisible"@ ==> page_access(
            user,
            Some(word),
        ) == Err::<(), Failure>(not_found("Page not found"@)),
        page_access(user, None) == Err::<(), Failure>(not_found("Page not found"@)),
{
    reveal_strlit("public");
    reveal_strlit("private");
    reveal_strlit("invisible");
    assert("public"@.len() == 6 && "private"@.len() == 7 && "invisible"@.len() == 9);
}

/// A page is created where each part of it is accepted, and holds the parts in their normal form.
pub proof fn law_pages_are_made_of_their_parts(input: PageContentView)
    ensures
        ({
            let label = label_of(input.0, "Page label is invalid"@);
            let endpoint = endpoint_of(input.1);
            let content = page_content_of(input.2);
            let visibility = visibility_of(input.3);
            let result = new_page(input);
            &&& result is Ok <==> label is Ok && endpoint is Ok && content is Ok && visibility is Ok
                && 1 <= input.4 <= 10000
            &&& result is Ok ==> result->Ok_0 == (
                label->Ok_0,
                endpoint->Ok_0,
                content->Ok_0,
                visibility->Ok_0,
                input.4,
            )
        }),
{
}

/// A change of a page that was made for its revision is saved: what is given replaces what was
/// there, in its normal form, and the rest stays. Of the home page only the label and the content
/// change, and of the site's own pages only the visibility and the order.
pub proof fn law_page_changes_are_saved(patch: PagePatch, current: StoredPage)
    ensures
        ({
            let result = page_course(true, patch, Some(current));
            let home = current.page_type@ == "home"@;
            let system = current.page_type@ == "system"@;
            let custom = current.page_type@ == "custom"@;
            let something = patch.label is Some || patch.endpoint is Some || patch.content is Some
                || patch.visibility is Some || patch.navigation_order is Some;
            let timely = patch.revision >= 1 && patch.revision == current.revision;
            let allowed = (home && patch.endpoint is None && patch.visibility is None
                && patch.navigation_order is None) || (system && patch.label is None
                && patch.endpoint is None && patch.content is None) || custom;
            let order = if patch.navigation_order is Some {
                patch.navigation_order->Some_0
            } else {
                current.page.navigation_order
            };
            let valid = (patch.label is Some ==> label_of(
                patch.label->Some_0@,
                "Page label is invalid"@,
            ) is Ok) && (patch.endpoint is Some ==> endpoint_of(patch.endpoint->Some_0@) is Ok) && (
            patch.content is Some ==> page_content_of(patch.content->Some_0@) is Ok) && (
            patch.visibility is Some ==> visibility_of(patch.visibility->Some_0@) is Ok) && (if home {
                order == 0
            } else {
                1 <= order <= 10000
            });
            &&& result is Ok <==> something && timely && allowed && valid
            &&& result is Ok ==> {
                let page = result->Ok_0;
                &&& patch.label is None ==> page.0 == current.page.label@
                &&& patch.label is Some ==> page.0 == label_of(
                    patch.label->Some_0@,
                    "Page label is invalid"@,
                )->Ok_0
                &&& patch.endpoint is None ==> page.1 == current.page.endpoint@
                &&& patch.endpoint is Some ==> page.1 == endpoint_of(patch.endpoint->Some_0@)->Ok_0
                &&& patch.content is None ==> page.2 == current.page.content@
                &&& patch.content is Some ==> page.2 == page_content_of(
                    patch.content->Some_0@,
                )->Ok_0
                &&& patch.visibility is None ==> page.3 == current.page.visibility@
                &&& patch.visibility is Some ==> page.3 == visibility_of(
                    patch.visibility->Some_0@,
                )->Ok_0
                &&& page.4 == order
            }
            &&& something && patch.revision >= 1 && !timely ==> result == Err::<
                PageContentView,
                Failure,
            >(conflict("This page changed since it was loaded; refresh before saving"@))
        }),
        page_course(false, patch, Some(current)) is Err,
        page_course(true, patch, None) is Err,
{
    reveal_strlit("home");
    reveal_strlit("system");
    reveal_strlit("custom");
    assert("home"@.len() == 4 && "system"@.len() == 6 && "custom"@.len() == 6);
    assert("system"@[0] != "custom"@[0]);
}

/// The visibility of the page of challenges, or of the scoreboard, is stored as that of the
/// challenges, or of the scores; what is invisible is for administrators.
pub proof fn law_visibility_is_synced(visibility: Seq<char>, key: Seq<char>)
    ensures
        ({
            let value = if visibility == "invisible"@ {
                "admins"@
            } else {
                visibility
            };
            &&& synced_setting("challenges"@, visibility) == Ok::<
                Option<(Seq<char>, Seq<char>)>,
                Failure,
            >(Some(("challenge_visibility"@, value)))
            &&& synced_setting("scoreboard"@, visibility) == Ok::<
                Option<(Seq<char>, Seq<char>)>,
                Failure,
            >(Some(("score_visibility"@, value)))
            &&& synced_setting("home"@, visibility) == Ok::<
                Option<(Seq<char>, Seq<char>)>,
                Failure,
            >(None)
            &&& key != "challenges"@ && key != "scoreboard"@ && key != "home"@ ==> synced_setting(
                key,
                visibility,
            ) is Err
        }),
{
    reveal_strlit("challenges");
    reveal_strlit("scoreboard");
    reveal_strlit("home");
    assert("challenges"@.len() == 10 && "scoreboard"@.len() == 10 && "home"@.len() == 4);
    assert("challenges"@[0] != "scoreboard"@[0]);
}

/// A category is made of a name, a logo of the site's own and its color, as they are given.
pub proof fn law_categories_are_made_of_their_parts(input: CategoryView)
    ensures
        ({
            let name = label_of(input.0, "Category value is invalid"@);
            let key = logo_key_of(input.1);
            let color = logo_color_of(input.2, input.1);
            let result = new_category(input);
            &&& result is Ok <==> name is Ok && key is Ok && color is Ok
            &&& result is Ok ==> result->Ok_0 == (name->Ok_0, input.1, color->Ok_0)
        }),
{
}

/// A change of a category keeps what is not mentioned: the name, the logo and, as long as there is a
/// logo, its color; null takes the logo away, and the color with it.
pub proof fn law_category_changes_keep_the_rest(patch: CategoryPatch, current: CategoryView)
    ensures
        ({
            let result = category_course(true, patch, Some(current));
            &&& result is Ok && patch.name is None ==> result->Ok_0.0 == current.0
            &&& result is Ok && patch.name is Some ==> patch.name->Some_0 is Text && label_of(
                patch.name->Some_0->Text_0@,
                "Category value is invalid"@,
            ) == Ok::<Seq<char>, Failure>(result->Ok_0.0)
            &&& result is Ok && patch.logo_key is None ==> result->Ok_0.1 == current.1
            &&& result is Ok && patch.logo_key == Some(Json::Null) ==> result->Ok_0.1 is None
                && result->Ok_0.2 is None
            &&& result is Ok && patch.logo_key is Some && !(patch.logo_key->Some_0 is Null)
                ==> patch.logo_key->Some_0 is Text && result->Ok_0.1 == Some(
                patch.logo_key->Some_0->Text_0@,
            )
            &&& patch.name is None && patch.logo_key is None && patch.logo_color is None
                && current.1 is None ==> result == Ok::<CategoryView, Failure>(
                (current.0, None, None),
            )
            &&& patch.name is None && patch.logo_key is None && patch.logo_color is None
                && current.1 is Some ==> (match logo_color_of(current.2, current.1) {
                Ok(color) => result == Ok::<CategoryView, Failure>((current.0, current.1, color)),
                Err(failure) => result == Err::<CategoryView, Failure>(failure),
            })
        }),
        category_course(false, patch, Some(current)) is Err,
        category_course(true, patch, None) is Err,
{
}

/// Custom pages, and categories that no challenge is in, are deleted by administrators; nothing else
/// is, and by nobody else.
pub proof fn law_unused_pages_and_categories_go(word: Seq<char>, exists: bool, in_use: bool)
    ensures
        page_deletable(true, Some("custom"@)),
        word != "custom"@ ==> !page_deletable(true, Some(word)),
        !page_deletable(true, None) && !page_deletable(false, Some(word)),
        category_deletable(true, true, false),
        !category_deletable(true, true, true) && !category_deletable(true, false, in_use)
            && !category_deletable(false, exists, in_use),
{
}

} // verus!
