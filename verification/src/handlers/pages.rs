//! The pages and the style sheet that the handlers serve.

use vstd::prelude::*;

verus! {

/// The page for those who are logged in.
pub const HOME_PAGE: &'static str =
    "<!DOCTYPE html>\n<html>\n<head>\n<title>Home</title>\n<link rel=\"stylesheet\" href=\"/styles.css\">\n</head>\n<body>\n<h1>Welcome</h1>\n<p>You are logged in.</p>\n</body>\n</html>\n";

/// The page with the login form.
pub const LOGIN_PAGE: &'static str =
    "<!DOCTYPE html>\n<html>\n<head>\n<title>Login</title>\n<link rel=\"stylesheet\" href=\"/styles.css\">\n</head>\n<body>\n<h1>Login</h1>\n<form method=\"post\" action=\"/login\">\n<label>Username <input type=\"text\" name=\"username\"></label>\n<label>Password <input type=\"password\" name=\"password\"></label>\n<button type=\"submit\">Log in</button>\n</form>\n</body>\n</html>\n";

/// The style sheet of both pages.
pub const STYLE_SHEET: &'static str =
    "body {\n  font-family: sans-serif;\n  margin: 2rem auto;\n  max-width: 40rem;\n}\nlabel {\n  display: block;\n  margin-bottom: 1rem;\n}\n";

} // verus!
