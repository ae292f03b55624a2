//! The pages of the application, written out as text. What a user typed or
//! was told goes into a page as it is.

use crate::domain::subscriber_id::{
    hyphenated, is_uuid_char, is_uuid_text, random_uuid, uuid_text,
};
use crate::idempotency::key::{all_printable, is_printable_ascii, key_defect};
use vstd::prelude::*;
use vstd::string::StringExecFns;

verus! {

/// The login page up to the messages.
pub const LOGIN_PAGE_HEAD: &'static str = r#"<!doctype html>
    <html lang="en">
      <head>
        <meta http-equiv="content-type" content="text/html; charset=utf-8" />
        <title>Login</title>
      </head>
      <body>
      "#;

/// The login page from the form on.
pub const LOGIN_PAGE_TAIL: &'static str = r#"
        <form action="/login" method="post">
          <label
            >Username
            <input
              type="text"
              placeholder="Enter Username"
              name="username"
              required
            /> </label
          ><label
            >Password
            <input
              type="password"
              placeholder="Enter Password"
              name="password"
              required
            />
          </label>
          <button type="submit">Login</button>
        </form>
      </body>
    </html>
"#;

/// The page for changing the password up to the messages.
pub const PASSWORD_PAGE_HEAD: &'static str = r#"<!doctype html>
            <html lang="en">
              <head>
                <meta http-equiv="content-type" content="text/html; charset=utf-8" />
                <title>Change Password</title>
              </head>
              <body>
              "#;

/// The page for changing the password from the form on.
pub const PASSWORD_PAGE_TAIL: &'static str = r#"
                <form action="/admin/password" method="post">
                  <label
                    >Current password
                    <input
                      type="password"
                      placeholder="Enter current password"
                      name="current_password"
                    />
                  </label>
                  <br />
                  <label
                    >New password
                    <input
                      type="password"
                      placeholder="Enter new password"
                      name="new_password"
                    />
                  </label>
                  <br />
                  <label
                    >Confirm new password
                    <input
                      type="password"
                      placeholder="Type the new password again"
                      name="new_password_check"
                    />
                  </label>
                  <br />
                  <button type="submit">Submit</button>
                </form>
              </body>
            </html>
"#;

/// The page for publishing an issue up to the messages.
pub const NEWSLETTER_PAGE_HEAD: &'static str = r#"<!DOCTYPE html>
<html lang="en">
<head>
<meta http-equiv="content-type" content="text/html; charset=utf-8">
<title>Send Newsletter Issue</title>
</head>
<body>
  "#;

/// The page for publishing an issue from the messages to the idempotency key.
pub const NEWSLETTER_PAGE_FORM: &'static str = r#"
  <form action="/admin/newsletters" method="post">
    <input hidden type="text" name="idempotency_key" value=""#;

/// The page for publishing an issue from the idempotency key on.
pub const NEWSLETTER_PAGE_TAIL: &'static str = r#"">
    <label>Newsletter Title
    <br />
      <textarea name="title" rows="10" cols="50"></textarea>
    </label>
    <br />
    <label>Newsletter Content in HTML Format
    <br />
      <textarea name="html_content" rows="20" cols="100"></textarea>
    </label>
    <br />
    <label>Newsletter Content in Plain Text
    <br />
      <textarea name="text_content" rows="20" cols="100"></textarea>
    </label>
    <br />
    <button type="submit">Publish</button>
  </form>
</body>
</html>"#;

/// The dashboard up to the name of the user.
pub const DASHBOARD_PAGE_HEAD: &'static str = r#"<!DOCTYPE html>
<html lang="en">
<head>
  <meta http-equiv="content-type" content="text/html; charset=utf-8">
  <title>Admin dashboard</title>
</head>
<body>
  <p>Welcome "#;

/// The dashboard from the name of the user on.
pub const DASHBOARD_PAGE_TAIL: &'static str = r#"!</p>
  <p>Available actions:</p>
  <ol>
    <li><a href="/admin/password">Change password</a></li>
    <li>
      <form name="logoutForm" action="/admin/logout" method="post">
        <input type="submit" value="Logout"/>
      </form>
    </li>
    <li>
      <a href="/admin/newsletters">Send a newsletter issue</a>
    </li>
  </ol>
</body>
</html>"#;

/// What is shown where no page is.
pub const NOT_FOUND_TEXT: &'static str = "404: Page Not Found";

/// The messages of a page: each in a paragraph of its own, in italics.
pub open spec fn messages_view(messages: Seq<Seq<char>>) -> Seq<char>
    decreases messages.len(),
{
    if messages.len() == 0 {
        Seq::empty()
    } else {
        messages_view(messages.drop_last()) + "<p><i>"@ + messages.last() + "</i></p>\n"@
    }
}

/// The views of a list of texts.
pub open spec fn texts(list: Seq<String>) -> Seq<Seq<char>> {
    Seq::new(list.len(), |i: int| list[i]@)
}

/// Writes the messages of a page: see [`messages_view`].
pub fn messages_html(messages: &Vec<String>) -> (html: String)
    ensures
        html@ == messages_view(texts(messages@)),
{
    let ghost all = texts(messages@);
    let mut html = String::new();
    let mut i: usize = 0;
    assert(all.take(0) =~= Seq::<Seq<char>>::empty());
    while i < messages.len()
        invariant
            i <= messages@.len(),
            all == texts(messages@),
            html@ == messages_view(all.take(i as int)),
        decreases messages@.len() - i,
    {
        proof {
            let done = all.take(i + 1);
            assert(done.drop_last() =~= all.take(i as int));
            assert(done.last() == messages@[i as int]@);
        }
        html.append("<p><i>");
        html.append(messages[i].as_str());
        html.append("</i></p>\n");
        i += 1;
    }
    assert(all.take(i as int) =~= all);
    html
}

/// The login page with these messages.
pub fn login_form(messages: &Vec<String>) -> (page: String)
    ensures
        page@ == LOGIN_PAGE_HEAD@ + messages_view(texts(messages@)) + LOGIN_PAGE_TAIL@,
{
    let mut page = String::from_str(LOGIN_PAGE_HEAD);
    page.append(messages_html(messages).as_str());
    page.append(LOGIN_PAGE_TAIL);
    page
}

/// The page for changing the password with these messages.
pub fn change_password_form(messages: &Vec<String>) -> (page: String)
    ensures
        page@ == PASSWORD_PAGE_HEAD@ + messages_view(texts(messages@)) + PASSWORD_PAGE_TAIL@,
{
    let mut page = String::from_str(PASSWORD_PAGE_HEAD);
    page.append(messages_html(messages).as_str());
    page.append(PASSWORD_PAGE_TAIL);
    page
}

/// The dashboard of this user.
pub fn admin_dashboard(username: &str) -> (page: String)
    ensures
        page@ == DASHBOARD_PAGE_HEAD@ + username@ + DASHBOARD_PAGE_TAIL@,
{
    let mut page = String::from_str(DASHBOARD_PAGE_HEAD);
    page.append(username);
    page.append(DASHBOARD_PAGE_TAIL);
    page
}

/// The page for publishing an issue, with these messages and this
/// idempotency key in the form.
pub open spec fn newsletter_page_view(messages: Seq<Seq<char>>, idempotency_key: Seq<char>) -> Seq<
    char,
> {
    NEWSLETTER_PAGE_HEAD@ + messages_view(messages) + NEWSLETTER_PAGE_FORM@ + idempotency_key
        + NEWSLETTER_PAGE_TAIL@
}

/// The page for publishing an issue: see [`newsletter_page_view`].
pub fn publish_newsletter_form_with(messages: &Vec<String>, idempotency_key: &str) -> (page: String)
    ensures
        page@ == newsletter_page_view(texts(messages@), idempotency_key@),
{
    let mut page = String::from_str(NEWSLETTER_PAGE_HEAD);
    page.append(messages_html(messages).as_str());
    page.append(NEWSLETTER_PAGE_FORM);
    page.append(idempotency_key);
    page.append(NEWSLETTER_PAGE_TAIL);
    page
}

/// The text of a UUID can be an idempotency key.
pub proof fn lemma_uuid_text_is_a_key(text: Seq<char>)
    requires
        is_uuid_text(text),
    ensures
        key_defect(text) is None,
{
    assert(all_printable(text)) by {
        assert forall|i: int| 0 <= i < text.len() implies is_printable_ascii(#[trigger] text[i]) by {
            assert(is_uuid_char(text[i]));
        }
    }
}

/// The page for publishing an issue, with a fresh random idempotency key in
/// its form. The key is the text of a UUID, which is a valid key.
pub fn publish_newsletter_form(messages: &Vec<String>) -> (page: String)
    ensures
        exists|id: u128|
            key_defect(hyphenated(id)) is None && page@ == newsletter_page_view(
                texts(messages@),
                #[trigger] hyphenated(id),
            ),
{
    let idempotency_key = uuid_text(random_uuid());
    proof {
        lemma_uuid_text_is_a_key(idempotency_key@);
    }
    publish_newsletter_form_with(messages, idempotency_key.as_str())
}

} // verus!
