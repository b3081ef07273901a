//! Records of the upstream training platform, and what its answers mean.

use crate::db::texts;
use crate::remote::RemoteApiError;
use vstd::prelude::*;
use vstd::string::*;

verus! {

/// Envelope of the platform's answer to a request for modules.
#[derive(Debug)]
pub struct ModuleAPIResponse<T> {
    pub success: bool,
    pub errors: Option<Vec<String>>,
    pub modules: Option<T>,
}

/// A module of a course, with the challenges it holds.
#[derive(Debug, Eq, Hash, PartialEq)]
pub struct Module {
    pub id: String,
    pub name: String,
    pub challenges: Vec<Challenge>,
}

/// A challenge as the upstream platform knows it.
#[derive(Debug, Eq, Hash, PartialEq)]
pub struct Challenge {
    pub id: String,
    pub name: String,
}

/// Envelope of the platform's answer to a request for solves.
#[derive(Debug)]
pub struct SolvesAPIResponse<T> {
    pub success: bool,
    pub errors: Option<Vec<String>>,
    pub solves: Option<T>,
}

/// One solved challenge of one user.
#[derive(Debug, Eq, Hash, PartialEq)]
pub struct Solve {
    pub module_id: String,
    pub challenge_id: String,
}

/// The course that every request is made for.
pub open spec fn course() -> Seq<char> {
    "intro-to-cybersecurity"@
}

/// The names of a module's challenges, in order.
pub open spec fn challenge_names(module: Module) -> Seq<Seq<char>> {
    module.challenges@.map_values(|c: Challenge| c.name@)
}

/// The raw id of a solve, where it lies in the given module.
pub open spec fn solve_in(module: Seq<char>) -> spec_fn(Solve) -> Option<Seq<char>> {
    |s: Solve|
        if s.module_id@ == module {
            Some(s.challenge_id@)
        } else {
            None
        }
}

/// The address that lists the modules of a course.
pub open spec fn modules_address(base: Seq<char>, dojo: Seq<char>) -> Seq<char> {
    base + "/pwncollege_api/v1/dojos/"@ + dojo + "/modules"@
}

/// The address that lists what a user solved in a course.
pub open spec fn solves_address(base: Seq<char>, dojo: Seq<char>, username: Seq<char>) -> Seq<
    char,
> {
    base + "/pwncollege_api/v1/dojos/"@ + dojo + "/solves?username="@ + username
}

/// The place of the first module with the given id, where `at` is it.
pub open spec fn is_first_module(modules: Seq<Module>, id: Seq<char>, at: int) -> bool {
    &&& 0 <= at < modules.len()
    &&& modules[at].id@ == id
    &&& forall|j: int| 0 <= j < at ==> modules[j].id@ != id
}

/// Whether no module has the given id.
pub open spec fn no_module(modules: Seq<Module>, id: Seq<char>) -> bool {
    forall|j: int| 0 <= j < modules.len() ==> modules[j].id@ != id
}

/// The upstream platform, as far as its answers have to be understood. It
/// sends nothing itself.
pub struct PWNCollegeClient {
    url: String,
}

impl PWNCollegeClient {
    /// The base address of the platform.
    pub closed spec fn base(&self) -> Seq<char> {
        self.url@
    }

    /// A client for the public platform.
    pub fn new() -> (client: Self)
        ensures
            client.base() == "https://pwn.college/"@,
    {
        PWNCollegeClient { url: String::from_str("https://pwn.college/") }
    }

    /// The course that every request is made for.
    pub fn dojo(&self) -> (name: String)
        ensures
            name@ == course(),
    {
        String::from_str("intro-to-cybersecurity")
    }

    /// The address that lists the modules of the course `dojo`.
    pub fn modules_url(&self, dojo: &str) -> (url: String)
        ensures
            url@ == modules_address(self.base(), dojo@),
    {
        self.url.clone().concat("/pwncollege_api/v1/dojos/").concat(dojo).concat("/modules")
    }

    /// The address that lists what the user solved in the course `dojo`.
    pub fn solves_url(&self, dojo: &str, username: &str) -> (url: String)
        ensures
            url@ == solves_address(self.base(), dojo@, username@),
    {
        self.url.clone().concat("/pwncollege_api/v1/dojos/").concat(dojo).concat(
            "/solves?username=",
        ).concat(username)
    }

    /// The modules in the platform's answer.
    pub fn get_modules_from_dojo(&self, response: ModuleAPIResponse<Vec<Module>>) -> (res: Result<
        Vec<Module>,
        RemoteApiError,
    >)
        ensures
            res == match response.modules {
                Some(modules) => Ok::<Vec<Module>, RemoteApiError>(modules),
                None => Err::<Vec<Module>, RemoteApiError>(RemoteApiError::Missing),
            },
    {
        match response.modules {
            Some(modules) => Ok(modules),
            None => Err(RemoteApiError::Missing),
        }
    }

    /// The place of the first module with the given id.
    fn find_module(modules: &Vec<Module>, module: &str) -> (at: Option<usize>)
        ensures
            match at {
                Some(i) => is_first_module(modules@, module@, i as int),
                None => no_module(modules@, module@),
            },
    {
        let wanted = String::from_str(module);
        let mut i: usize = 0;
        while i < modules.len()
            invariant
                i <= modules.len(),
                wanted@ == module@,
                forall|j: int| 0 <= j < i ==> modules[j].id@ != module@,
            decreases modules.len() - i,
        {
            if modules[i].id == wanted {
                return Some(i);
            }
            i += 1;
        }
        None
    }

    /// The names of the challenges of the first listed module with the given
    /// id, in the platform's order.
    pub fn get_challenges_for_module(&self, modules: &Vec<Module>, module: &str) -> (res: Result<
        Vec<String>,
        RemoteApiError,
    >)
        ensures
            match res {
                Ok(names) => exists|i: int|
                    is_first_module(modules@, module@, i) && texts(names@) == challenge_names(
                        modules[i],
                    ),
                Err(e) => no_module(modules@, module@) && e == RemoteApiError::NotFound,
            },
    {
        match Self::find_module(modules, module) {
            Some(at) => {
                let found = &modules[at];
                let mut names: Vec<String> = Vec::new();
                let mut i: usize = 0;
                while i < found.challenges.len()
                    invariant
                        i <= found.challenges.len(),
                        names.len() == i,
                        forall|j: int| 0 <= j < i ==> names[j]@ == found.challenges[j].name@,
                    decreases found.challenges.len() - i,
                {
                    names.push(found.challenges[i].name.clone());
                    i += 1;
                }
                Ok(names)
            },
            None => Err(RemoteApiError::NotFound),
        }
    }

    /// The display name of the first listed module with the given id.
    pub fn pretty_print_module(&self, modules: &Vec<Module>, module: &str) -> (res: Result<
        String,
        RemoteApiError,
    >)
        ensures
            match res {
                Ok(name) => exists|i: int|
                    is_first_module(modules@, module@, i) && name@ == modules[i].name@,
                Err(e) => no_module(modules@, module@) && e == RemoteApiError::NotFound,
            },
    {
        match Self::find_module(modules, module) {
            Some(at) => {
                Ok(modules[at].name.clone())
            },
            None => Err(RemoteApiError::NotFound),
        }
    }

    /// The raw ids of the challenges that the answer lists as solved in the
    /// given module, in the platform's order.
    pub fn get_solves_by_user_for_module(
        &self,
        response: &SolvesAPIResponse<Vec<Solve>>,
        module: &str,
    ) -> (res: Result<Vec<String>, RemoteApiError>)
        ensures
            match response.solves {
                Some(solves) => res is Ok && texts(res->Ok_0@) == solves@.filter_map(
                    solve_in(module@),
                ),
                None => res == Err::<Vec<String>, RemoteApiError>(RemoteApiError::Missing),
            },
    {
        match &response.solves {
            Some(solves) => {
                let wanted = String::from_str(module);
                let mut ids: Vec<String> = Vec::new();
                let mut i: usize = 0;
                while i < solves.len()
                    invariant
                        i <= solves.len(),
                        wanted@ == module@,
                        texts(ids@) == solves@.take(i as int).filter_map(solve_in(module@)),
                    decreases solves.len() - i,
                {
                    proof {
                        solves@.lemma_filter_map_take_succ(solve_in(module@), i as int);
                    }
                    if solves[i].module_id == wanted {
                        ids.push(solves[i].challenge_id.clone());
                    }
                    i += 1;
                }
                proof {
                    assert(solves@.take(solves.len() as int) =~= solves@);
                }
                Ok(ids)
            },
            None => Err(RemoteApiError::Missing),
        }
    }
}

} // verus!
