//! The errors that the table of contents returns.

use vstd::prelude::*;

verus! {

/// Why an operation failed.
#[derive(Debug)]
pub enum StorageError {
    /// The request cannot be carried out as it is.
    BadInput { description: String },
    /// The request names something that does not exist.
    NotFound { description: String },
    /// Something outside of the request failed.
    ServiceError { description: String },
}

/// What a `StorageError` says.
pub enum ErrorView {
    BadInput { description: Seq<char> },
    NotFound { description: Seq<char> },
    ServiceError { description: Seq<char> },
}

impl View for StorageError {
    type V = ErrorView;

    open spec fn view(&self) -> ErrorView {
        match self {
            StorageError::BadInput { description } => ErrorView::BadInput {
                description: description@,
            },
            StorageError::NotFound { description } => ErrorView::NotFound {
                description: description@,
            },
            StorageError::ServiceError { description } => ErrorView::ServiceError {
                description: description@,
            },
        }
    }
}

/// A collection of that name is there already.
pub open spec fn collection_exists_error(name: Seq<char>) -> ErrorView {
    ErrorView::BadInput { description: "Collection `"@ + name + "` already exists!"@ }
}

/// There is no collection of that name.
pub open spec fn collection_missing_error(name: Seq<char>) -> ErrorView {
    ErrorView::NotFound { description: "Collection `"@ + name + "` doesn't exist!"@ }
}

/// There is no alias of that name.
pub open spec fn alias_missing_error(name: Seq<char>) -> ErrorView {
    ErrorView::NotFound { description: "Alias "@ + name + " does not exist!"@ }
}

/// A collection cannot have zero shards.
pub open spec fn zero_shards_error() -> ErrorView {
    ErrorView::BadInput { description: "`shard_number` cannot be 0"@ }
}

/// The directory of a collection could not be made.
pub open spec fn create_directory_error(name: Seq<char>, cause: Seq<char>) -> ErrorView {
    ErrorView::ServiceError {
        description: "Can't create directory for collection "@ + name + ". Error: "@ + cause,
    }
}

/// The directory of a collection could not be removed.
pub open spec fn remove_directory_error(name: Seq<char>, cause: Seq<char>) -> ErrorView {
    ErrorView::ServiceError {
        description: "Can't delete collection "@ + name + ", error: "@ + cause,
    }
}

impl StorageError {
    /// The text of the error.
    pub fn description(&self) -> (res: &String)
        ensures
            match self@ {
                ErrorView::BadInput { description } => res@ == description,
                ErrorView::NotFound { description } => res@ == description,
                ErrorView::ServiceError { description } => res@ == description,
            },
    {
        match self {
            StorageError::BadInput { description } => description,
            StorageError::NotFound { description } => description,
            StorageError::ServiceError { description } => description,
        }
    }

    pub(crate) fn collection_exists(name: &str) -> (res: Self)
        ensures
            res@ == collection_exists_error(name@),
    {
        StorageError::BadInput {
            description: "Collection `".to_owned().concat(name).concat("` already exists!"),
        }
    }

    pub(crate) fn collection_missing(name: &str) -> (res: Self)
        ensures
            res@ == collection_missing_error(name@),
    {
        StorageError::NotFound {
            description: "Collection `".to_owned().concat(name).concat("` doesn't exist!"),
        }
    }

    pub(crate) fn alias_missing(name: &str) -> (res: Self)
        ensures
            res@ == alias_missing_error(name@),
    {
        StorageError::NotFound {
            description: "Alias ".to_owned().concat(name).concat(" does not exist!"),
        }
    }

    pub(crate) fn zero_shards() -> (res: Self)
        ensures
            res@ == zero_shards_error(),
    {
        StorageError::BadInput { description: "`shard_number` cannot be 0".to_owned() }
    }

    pub(crate) fn create_directory(name: &str, cause: &str) -> (res: Self)
        ensures
            res@ == create_directory_error(name@, cause@),
    {
        StorageError::ServiceError {
            description: "Can't create directory for collection ".to_owned().concat(name).concat(
                ". Error: ",
            ).concat(cause),
        }
    }

    pub(crate) fn remove_directory(name: &str, cause: &str) -> (res: Self)
        ensures
            res@ == remove_directory_error(name@, cause@),
    {
        StorageError::ServiceError {
            description: "Can't delete collection ".to_owned().concat(name).concat(
                ", error: ",
            ).concat(cause),
        }
    }
}

} // verus!
