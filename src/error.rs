use vstd::prelude::*;

use crate::text::{nat_text, usize_text};

verus! {

/// The body sent to a client on failure.
#[derive(Debug)]
pub struct ErrorResponse {
    pub status: String,
    pub message: String,
}

/// Every failure the service reports, each with one client-safe message.
#[derive(Debug, PartialEq, Eq, Structural, Clone, Copy)]
pub enum ErrorMessage {
    EmptyPassword,
    ExceededMaxPasswordLength(usize),
    HashingError,
    InvalidHashFormate,
    InvalidToken,
    ServerError,
    WrongCredentials,
    EmailExist,
    UserNoLongerExist,
    TokenNotProvided,
    PermissionDenied,
}

impl ErrorMessage {
    /// The message a client sees for this failure.
    pub open spec fn text(self) -> Seq<char> {
        match self {
            ErrorMessage::ServerError => "Erro no servidor. Tente novamente mais tarde."@,
            ErrorMessage::WrongCredentials => "E-mail ou senha estão incorretos."@,
            ErrorMessage::EmailExist => "Já existe um usuário com este e-mail."@,
            ErrorMessage::UserNoLongerExist => "O usuário pertencente a este token não existe mais."@,
            ErrorMessage::EmptyPassword => "A senha não pode estar vazia."@,
            ErrorMessage::HashingError => "Erro ao fazer hash da senha."@,
            ErrorMessage::InvalidHashFormate => "Formato de hash de senha inválido."@,
            ErrorMessage::ExceededMaxPasswordLength(max_length) => "A senha não deve ter mais de "@
                + nat_text(max_length as nat) + " caracteres."@,
            ErrorMessage::InvalidToken => "O token de autenticação é inválido ou expirou."@,
            ErrorMessage::TokenNotProvided => "Você não está logado, por favor forneça um token."@,
            ErrorMessage::PermissionDenied => "Você não tem permissão para executar esta ação."@,
        }
    }

    pub fn to_str(&self) -> (r: String)
        ensures
            r@ == self.text(),
    {
        match self {
            ErrorMessage::ServerError => "Erro no servidor. Tente novamente mais tarde.".to_owned(),
            ErrorMessage::WrongCredentials => "E-mail ou senha estão incorretos.".to_owned(),
            ErrorMessage::EmailExist => "Já existe um usuário com este e-mail.".to_owned(),
            ErrorMessage::UserNoLongerExist => "O usuário pertencente a este token não existe mais.".to_owned(),
            ErrorMessage::EmptyPassword => "A senha não pode estar vazia.".to_owned(),
            ErrorMessage::HashingError => "Erro ao fazer hash da senha.".to_owned(),
            ErrorMessage::InvalidHashFormate => "Formato de hash de senha inválido.".to_owned(),
            ErrorMessage::ExceededMaxPasswordLength(max_length) => {
                let mut s = "A senha não deve ter mais de ".to_owned();
                let n = usize_text(*max_length);
                s.append(n.as_str());
                s.append(" caracteres.");
                s
            },
            ErrorMessage::InvalidToken => "O token de autenticação é inválido ou expirou.".to_owned(),
            ErrorMessage::TokenNotProvided => "Você não está logado, por favor forneça um token.".to_owned(),
            ErrorMessage::PermissionDenied => "Você não tem permissão para executar esta ação.".to_owned(),
        }
    }

    /// The status class this failure is reported with.
    pub open spec fn status_spec(self) -> u16 {
        match self {
            ErrorMessage::WrongCredentials | ErrorMessage::UserNoLongerExist
            | ErrorMessage::InvalidToken | ErrorMessage::TokenNotProvided => 401,
            ErrorMessage::PermissionDenied => 403,
            ErrorMessage::EmailExist => 409,
            _ => 500,
        }
    }

    /// The typed error, with status class and safe message, for this failure.
    pub fn into_http_error(&self) -> (r: HttpError)
        ensures
            r.message@ == self.text(),
            r.status == self.status_spec(),
    {
        let status: u16 = match self {
            ErrorMessage::WrongCredentials | ErrorMessage::UserNoLongerExist
            | ErrorMessage::InvalidToken | ErrorMessage::TokenNotProvided => 401,
            ErrorMessage::PermissionDenied => 403,
            ErrorMessage::EmailExist => 409,
            _ => 500,
        };
        HttpError::new(self.to_str(), status)
    }
}

/// A failure carrying an HTTP status class and a client-safe message.
#[derive(Debug, Clone)]
pub struct HttpError {
    pub message: String,
    pub status: u16,
}

impl HttpError {
    pub fn new(message: String, status: u16) -> (r: Self)
        ensures
            r.message@ == message@,
            r.status == status,
    {
        HttpError { message, status }
    }

    pub fn server_error(message: String) -> (r: Self)
        ensures
            r.message@ == message@,
            r.status == 500,
    {
        HttpError { message, status: 500 }
    }

    pub fn bat_request(message: String) -> (r: Self)
        ensures
            r.message@ == message@,
            r.status == 400,
    {
        HttpError { message, status: 400 }
    }

    pub fn unique_constraint_violation(message: String) -> (r: Self)
        ensures
            r.message@ == message@,
            r.status == 409,
    {
        HttpError { message, status: 409 }
    }

    pub fn unauthorized(message: String) -> (r: Self)
        ensures
            r.message@ == message@,
            r.status == 401,
    {
        HttpError { message, status: 401 }
    }

    pub fn forbidden(message: String) -> (r: Self)
        ensures
            r.message@ == message@,
            r.status == 403,
    {
        HttpError { message, status: 403 }
    }

    /// Whether the status is one the service answers with as it stands.
    pub open spec fn known_status(status: u16) -> bool {
        status == 400 || status == 401 || status == 403 || status == 409 || status == 500
    }

    /// What goes on the wire: the status sent and the response body.
    /// A status outside the known classes is sent as a generic server error.
    pub fn into_response_parts(self) -> (r: (u16, ErrorResponse))
        ensures
            Self::known_status(self.status) ==> r.0 == self.status && r.1.status@ == "fail"@
                && r.1.message@ == self.message@,
            !Self::known_status(self.status) ==> r.0 == 500 && r.1.status@ == "error"@
                && r.1.message@ == ErrorMessage::ServerError.text(),
    {
        if self.status == 400 || self.status == 401 || self.status == 403 || self.status == 409
            || self.status == 500 {
            (self.status, ErrorResponse { status: "fail".to_owned(), message: self.message })
        } else {
            (500, ErrorResponse { status: "error".to_owned(), message: ErrorMessage::ServerError.to_str() })
        }
    }
}

} // verus!
